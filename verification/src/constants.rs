use vstd::prelude::*;

verus! {

// The numeric identifiers below are the kernel's published netlink ABI:
// message types, flag bits, command numbers and attribute type codes for the
// generic-netlink control family, the nl80211 wireless family, and the
// route-netlink address dump. They must match the kernel's constants exactly.
/// Size in bytes of the outer netlink message header.
pub const NETLINK_HEADER_SIZE: usize = 16;

/// Upper bound on the size of one netlink datagram.
pub const MAX_NETLINK_MESSAGE_SIZE: usize = 32768;

/// Message type of the error/acknowledgement sentinel.
pub const NLMSG_ERROR: u16 = 2;

/// Message type of the dump-completion sentinel.
pub const NLMSG_DONE: u16 = 3;

/// Route-netlink request: dump interface addresses.
pub const RTM_GETADDR: u16 = 22;

/// Route-netlink reply carrying one interface address.
pub const RTM_NEWADDR: u16 = 20;

/// Flag: this message is a request.
pub const NLM_F_REQUEST: u16 = 1;

/// Flag: ask for an acknowledgement sentinel.
pub const NLM_F_ACK: u16 = 4;

/// Flag: ask for a multi-message dump.
pub const NLM_F_DUMP: u16 = 0x300;

/// Well-known family id of the generic-netlink control family.
pub const GENL_ID_CTRL: u16 = 0x10;

/// Control-family command: resolve a family name to its id.
pub const CTRL_CMD_GETFAMILY: u8 = 3;

/// Control-family attribute: the resolved numeric family id.
pub const CTRL_ATTR_FAMILY_ID: u16 = 1;

/// Control-family attribute: the family name being resolved.
pub const CTRL_ATTR_FAMILY_NAME: u16 = 2;

/// nl80211 command: fetch station info (bitrate lives here).
pub const NL80211_CMD_GET_STATION: u8 = 17;

/// nl80211 command: dump scan results (BSS entries live here).
pub const NL80211_CMD_GET_SCAN: u8 = 32;

/// nl80211 attribute: interface index a command is scoped to.
pub const NL80211_ATTR_IFINDEX: u16 = 3;

/// nl80211 attribute: nested station info.
pub const NL80211_ATTR_STA_INFO: u16 = 21;

/// nl80211 attribute: nested BSS description.
pub const NL80211_ATTR_BSS: u16 = 47;

/// BSS attribute: operating frequency in megahertz.
pub const NL80211_BSS_FREQUENCY: u16 = 2;

/// BSS attribute: raw information-element blob (the SSID lives here).
pub const NL80211_BSS_INFORMATION_ELEMENTS: u16 = 6;

/// BSS attribute: association status.
pub const NL80211_BSS_STATUS: u16 = 9;

/// BSS status value: associated with this network.
pub const NL80211_BSS_STATUS_ASSOCIATED: u32 = 1;

/// BSS status value: joined this ad-hoc network.
pub const NL80211_BSS_STATUS_IBSS_JOINED: u32 = 2;

/// Station-info attribute: nested transmit bitrate info.
pub const NL80211_STA_INFO_TX_BITRATE: u16 = 8;

/// Rate-info attribute: bitrate in units of 100 kbit/s.
pub const NL80211_RATE_INFO_BITRATE: u16 = 1;

/// Interface-address attribute: local address bytes.
pub const IFA_LOCAL: u16 = 2;

/// Address family wildcard for unscoped dumps.
pub const AF_UNSPEC: u8 = 0;

/// Address scope: global.
pub const RT_SCOPE_UNIVERSE: u8 = 0;

} // verus!
