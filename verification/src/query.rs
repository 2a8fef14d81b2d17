use vstd::prelude::*;
use vstd::slice::{slice_subrange, slice_to_vec};
use crate::bytes::{le16_at, le32_at, le32_bytes, le32_of_vec, push_u32_le};
use crate::constants::{
    AF_UNSPEC, CTRL_ATTR_FAMILY_ID, CTRL_ATTR_FAMILY_NAME, CTRL_CMD_GETFAMILY, GENL_ID_CTRL,
    IFA_LOCAL, NLM_F_ACK, NLM_F_DUMP, NLM_F_REQUEST, NL80211_ATTR_BSS, NL80211_ATTR_IFINDEX,
    NL80211_ATTR_STA_INFO, NL80211_BSS_FREQUENCY, NL80211_BSS_INFORMATION_ELEMENTS,
    NL80211_BSS_STATUS, NL80211_BSS_STATUS_ASSOCIATED, NL80211_BSS_STATUS_IBSS_JOINED,
    NL80211_CMD_GET_SCAN, NL80211_CMD_GET_STATION, NL80211_RATE_INFO_BITRATE,
    NL80211_STA_INFO_TX_BITRATE, RTM_GETADDR, RT_SCOPE_UNIVERSE,
};
use crate::error::NetlinkError;
use crate::generic_netlink_header::{GenericFrameView, GenericNetlinkMessageHeader};
use crate::interface_address_message::{AddressFrameView, InterfaceAddressMessage};
use crate::netlink_attribute::{AttributeView, NetlinkAttribute};
use crate::netlink_header::{
    decode_attributes, found_attribute, get_attribute, parse_attributes, MessageView,
    NetlinkMessageHeader, Payload, PayloadView,
};
use crate::transport::msgs_views;
use crate::walking_vec::WalkingVec;

verus! {

/// The bytes of the wireless subsystem's family name, `nl80211`, with its
/// trailing NUL as the kernel expects it.
pub open spec fn wireless_name_bytes() -> Seq<u8> {
    seq![0x6eu8, 0x6cu8, 0x38u8, 0x30u8, 0x32u8, 0x31u8, 0x31u8, 0x00u8]
}

/// The message that resolves the wireless family name to its numeric id: a
/// control-family command carrying the family name as its only attribute.
pub open spec fn family_request_view(pid: u32) -> MessageView {
    MessageView {
        length: 32,
        message_type: GENL_ID_CTRL,
        flags: NLM_F_REQUEST | NLM_F_ACK,
        sequence_number: 0,
        pid,
        payload: PayloadView::GenericNetlink(
            GenericFrameView {
                cmd: CTRL_CMD_GETFAMILY,
                version: 1,
                reserved: 0,
                attributes: seq![
                    AttributeView {
                        length: 12,
                        attribute_type: CTRL_ATTR_FAMILY_NAME,
                        data: wireless_name_bytes(),
                    },
                ],
            },
        ),
    }
}

/// A generic-netlink command scoped to one interface: the command byte and a
/// single interface-index attribute.
pub open spec fn scoped_command_view(
    family_id: u16,
    flags: u16,
    cmd: u8,
    interface_index: u32,
    pid: u32,
) -> MessageView {
    MessageView {
        length: 28,
        message_type: family_id,
        flags,
        sequence_number: 0,
        pid,
        payload: PayloadView::GenericNetlink(
            GenericFrameView {
                cmd,
                version: 1,
                reserved: 0,
                attributes: seq![
                    AttributeView {
                        length: 8,
                        attribute_type: NL80211_ATTR_IFINDEX,
                        data: le32_bytes(interface_index),
                    },
                ],
            },
        ),
    }
}

/// The message that asks for a dump of every interface address: a
/// route-address frame with wildcard family and no attributes.
pub open spec fn address_request_view(interface_index: u32, pid: u32) -> MessageView {
    MessageView {
        length: 24,
        message_type: RTM_GETADDR,
        flags: NLM_F_REQUEST | NLM_F_DUMP,
        sequence_number: 0,
        pid,
        payload: PayloadView::RtmGetAddr(
            AddressFrameView {
                family: AF_UNSPEC,
                prefix_length: 0,
                flags: 0,
                scope: RT_SCOPE_UNIVERSE,
                index: interface_index,
                attributes: Seq::empty(),
            },
        ),
    }
}

/// Build the request that resolves the wireless family id from the
/// generic-netlink control family.
pub fn family_request(pid: u32) -> (r: NetlinkMessageHeader)
    ensures
        r@ == family_request_view(pid),
{
    let mut name: Vec<u8> = Vec::new();
    name.push(0x6e);
    name.push(0x6c);
    name.push(0x38);
    name.push(0x30);
    name.push(0x32);
    name.push(0x31);
    name.push(0x31);
    name.push(0x00);
    proof {
        assert(name@ =~= wireless_name_bytes());
    }
    let attribute = NetlinkAttribute::build(CTRL_ATTR_FAMILY_NAME, name);
    let mut attributes: Vec<NetlinkAttribute> = Vec::new();
    attributes.push(attribute);
    let genl_header = GenericNetlinkMessageHeader::build(CTRL_CMD_GETFAMILY, attributes);
    let payload = Payload::GenericNetlink(genl_header);
    proof {
        assert(payload@->GenericNetlink_0.attributes =~= family_request_view(
            0,
        ).payload->GenericNetlink_0.attributes);
        assert(payload@.size() == 16) by {
            reveal_with_fuel(crate::netlink_attribute::attrs_size, 3);
        }
    }
    let message = NetlinkMessageHeader::build(
        GENL_ID_CTRL,
        NLM_F_REQUEST | NLM_F_ACK,
        payload,
        pid,
    );
    message
}

/// Build a wireless command scoped to an interface index: the scan dump or
/// the station query, addressed to the resolved family id.
pub fn scoped_command(family_id: u16, flags: u16, cmd: u8, interface_index: u32, pid: u32) -> (r:
    NetlinkMessageHeader)
    ensures
        r@ == scoped_command_view(family_id, flags, cmd, interface_index, pid),
{
    let mut index_bytes: Vec<u8> = Vec::new();
    push_u32_le(&mut index_bytes, interface_index);
    proof {
        assert(index_bytes@ =~= le32_bytes(interface_index));
    }
    let attribute = NetlinkAttribute::build(NL80211_ATTR_IFINDEX, index_bytes);
    let mut attributes: Vec<NetlinkAttribute> = Vec::new();
    attributes.push(attribute);
    let genl_header = GenericNetlinkMessageHeader::build(cmd, attributes);
    let payload = Payload::GenericNetlink(genl_header);
    proof {
        assert(payload@->GenericNetlink_0.attributes =~= scoped_command_view(
            family_id,
            flags,
            cmd,
            interface_index,
            0,
        ).payload->GenericNetlink_0.attributes);
        assert(payload@.size() == 12) by {
            reveal_with_fuel(crate::netlink_attribute::attrs_size, 3);
        }
    }
    let message = NetlinkMessageHeader::build(family_id, flags, payload, pid);
    message
}

/// Build the scan-dump request that lists BSS entries for an interface.
pub fn scan_request(family_id: u16, interface_index: u32, pid: u32) -> (r: NetlinkMessageHeader)
    ensures
        r@ == scoped_command_view(
            family_id,
            NLM_F_REQUEST | NLM_F_DUMP | NLM_F_ACK,
            NL80211_CMD_GET_SCAN,
            interface_index,
            pid,
        ),
{
    scoped_command(
        family_id,
        NLM_F_REQUEST | NLM_F_DUMP | NLM_F_ACK,
        NL80211_CMD_GET_SCAN,
        interface_index,
        pid,
    )
}

/// Build the station request that carries the transmit bitrate for an
/// interface.
pub fn station_request(family_id: u16, interface_index: u32, pid: u32) -> (r: NetlinkMessageHeader)
    ensures
        r@ == scoped_command_view(
            family_id,
            NLM_F_REQUEST | NLM_F_DUMP | NLM_F_ACK,
            NL80211_CMD_GET_STATION,
            interface_index,
            pid,
        ),
{
    scoped_command(
        family_id,
        NLM_F_REQUEST | NLM_F_DUMP | NLM_F_ACK,
        NL80211_CMD_GET_STATION,
        interface_index,
        pid,
    )
}

/// Build the route-address dump request used to find an interface's
/// addresses.
pub fn address_request(interface_index: u32, pid: u32) -> (r: NetlinkMessageHeader)
    ensures
        r@ == address_request_view(interface_index, pid),
{
    let message = InterfaceAddressMessage::build(
        AF_UNSPEC,
        0,
        0,
        RT_SCOPE_UNIVERSE,
        interface_index,
        Vec::new(),
    );
    let payload = Payload::RtmGetAddr(message);
    proof {
        assert(payload@->RtmGetAddr_0.attributes =~= Seq::<AttributeView>::empty());
        assert(payload@.size() == 8);
    }
    NetlinkMessageHeader::build(RTM_GETADDR, NLM_F_REQUEST | NLM_F_DUMP, payload, pid)
}

/// The family-id attribute of the first reply message, when the first reply
/// carries a generic-netlink frame that has one.
pub open spec fn family_id_lookup(msgs: Seq<MessageView>) -> Option<AttributeView> {
    if msgs.len() > 0 && msgs[0].payload is GenericNetlink {
        found_attribute(msgs[0].payload->GenericNetlink_0.attributes, CTRL_ATTR_FAMILY_ID)
    } else {
        None
    }
}

/// Extract the resolved wireless family id from the control family's reply.
///
/// The id is read as a little-endian 16-bit value from the family-id
/// attribute of the first reply message; a reply without that attribute
/// means the wireless subsystem is absent.
pub fn extract_family_id(messages: &Vec<NetlinkMessageHeader>) -> (r: Result<u16, NetlinkError>)
    ensures
        match family_id_lookup(msgs_views(messages@)) {
            None => r == Err::<u16, NetlinkError>(NetlinkError::MissingFamilyId),
            Some(a) => if a.data.len() == 2 {
                r == Ok::<u16, NetlinkError>(le16_at(a.data, 0))
            } else {
                r == Err::<u16, NetlinkError>(NetlinkError::MalformedMessage)
            },
        },
{
    if messages.len() == 0 {
        return Err(NetlinkError::MissingFamilyId);
    }
    let first = &messages[0];
    proof {
        assert(first@ == msgs_views(messages@)[0]);
    }
    match &first.payload {
        Payload::GenericNetlink(message) => {
            match get_attribute(&message.attributes, CTRL_ATTR_FAMILY_ID) {
                Some(attribute) => {
                    if attribute.data.len() == 2 {
                        Ok((attribute.data[0] as u16) + (attribute.data[1] as u16) * 0x100)
                    } else {
                        Err(NetlinkError::MalformedMessage)
                    }
                },
                None => Err(NetlinkError::MissingFamilyId),
            }
        },
        Payload::RtmGetAddr(_) => Err(NetlinkError::MissingFamilyId),
        Payload::Done(_) => Err(NetlinkError::MissingFamilyId),
        Payload::Error(_) => Err(NetlinkError::MissingFamilyId),
    }
}

/// The transmit bitrate of the first reply message, in megabits per second:
/// the station-info attribute's nested transmit-bitrate list holds a raw
/// rate in 100 kbit/s units. Absence of any link in the chain yields zero;
/// a link whose bytes cannot be decoded yields nothing.
pub open spec fn bitrate_of(msgs: Seq<MessageView>) -> Option<u16> {
    if msgs.len() == 0 {
        Some(0u16)
    } else {
        match msgs[0].payload {
            PayloadView::GenericNetlink(f) => match found_attribute(
                f.attributes,
                NL80211_ATTR_STA_INFO,
            ) {
                None => Some(0u16),
                Some(sta) => match decode_attributes(sta.data, 0) {
                    None => None,
                    Some(sta_attrs) => match found_attribute(
                        sta_attrs,
                        NL80211_STA_INFO_TX_BITRATE,
                    ) {
                        None => Some(0u16),
                        Some(rate) => match decode_attributes(rate.data, 0) {
                            None => None,
                            Some(rate_attrs) => match found_attribute(
                                rate_attrs,
                                NL80211_RATE_INFO_BITRATE,
                            ) {
                                None => Some(0u16),
                                Some(raw) => if raw.data.len() == 2 {
                                    Some((le16_at(raw.data, 0) * 100 / 1000) as u16)
                                } else {
                                    None
                                },
                            },
                        },
                    },
                },
            },
            _ => Some(0u16),
        }
    }
}

/// Extract the transmit bitrate from a station reply and convert it from
/// 100 kbit/s units to megabits per second.
///
/// The bitrate is best effort: a missing station-info, bitrate-info or rate
/// attribute yields zero rather than an error.
pub fn extract_bitrate(messages: &Vec<NetlinkMessageHeader>) -> (r: Result<u16, NetlinkError>)
    ensures
        match bitrate_of(msgs_views(messages@)) {
            None => r == Err::<u16, NetlinkError>(NetlinkError::MalformedMessage),
            Some(v) => r == Ok::<u16, NetlinkError>(v),
        },
{
    if messages.len() == 0 {
        return Ok(0);
    }
    let first = &messages[0];
    proof {
        assert(first@ == msgs_views(messages@)[0]);
    }
    let message = match &first.payload {
        Payload::GenericNetlink(message) => message,
        Payload::RtmGetAddr(_) => {
            return Ok(0);
        },
        Payload::Done(_) => {
            return Ok(0);
        },
        Payload::Error(_) => {
            return Ok(0);
        },
    };
    let station_info = match get_attribute(&message.attributes, NL80211_ATTR_STA_INFO) {
        Some(attribute) => attribute,
        None => {
            return Ok(0);
        },
    };
    let mut sta_cursor = WalkingVec::new(slice_to_vec(station_info.data.as_slice()));
    let station_info_attributes = match parse_attributes(&mut sta_cursor) {
        Ok(attrs) => attrs,
        Err(e) => {
            return Err(e);
        },
    };
    let rate_info = match get_attribute(&station_info_attributes, NL80211_STA_INFO_TX_BITRATE) {
        Some(attribute) => attribute,
        None => {
            return Ok(0);
        },
    };
    let mut rate_cursor = WalkingVec::new(slice_to_vec(rate_info.data.as_slice()));
    let rate_info_attributes = match parse_attributes(&mut rate_cursor) {
        Ok(attrs) => attrs,
        Err(e) => {
            return Err(e);
        },
    };
    let raw_bitrate = match get_attribute(&rate_info_attributes, NL80211_RATE_INFO_BITRATE) {
        Some(attribute) => attribute,
        None => {
            return Ok(0);
        },
    };
    if raw_bitrate.data.len() != 2 {
        return Err(NetlinkError::MalformedMessage);
    }
    let raw: u32 = (raw_bitrate.data[0] as u32) + (raw_bitrate.data[1] as u32) * 0x100;
    Ok((raw * 100 / 1000) as u16)
}

/// The decimal digit character for a value under ten.
pub open spec fn digit_char(d: int) -> char {
    if d == 0 {
        '0'
    } else if d == 1 {
        '1'
    } else if d == 2 {
        '2'
    } else if d == 3 {
        '3'
    } else if d == 4 {
        '4'
    } else if d == 5 {
        '5'
    } else if d == 6 {
        '6'
    } else if d == 7 {
        '7'
    } else if d == 8 {
        '8'
    } else {
        '9'
    }
}

/// The decimal digits of an address byte, without leading zeros.
pub open spec fn decimal_octet(n: int) -> Seq<char> {
    if n < 10 {
        seq![digit_char(n)]
    } else if n < 100 {
        seq![digit_char(n / 10), digit_char(n % 10)]
    } else {
        seq![digit_char(n / 100), digit_char((n / 10) % 10), digit_char(n % 10)]
    }
}

/// The dot-decimal text of the first four bytes of an address.
pub open spec fn dotted_quad(o: Seq<u8>) -> Seq<char>
    recommends
        o.len() >= 4,
{
    decimal_octet(o[0] as int) + seq!['.'] + decimal_octet(o[1] as int) + seq!['.']
        + decimal_octet(o[2] as int) + seq!['.'] + decimal_octet(o[3] as int)
}

/// Append one decimal digit character.
fn push_digit(s: &mut String, d: u8)
    requires
        d < 10,
    ensures
        final(s)@ == old(s)@ + seq![digit_char(d as int)],
{
    if d == 0 {
        s.append("0");
        proof {
            reveal_strlit("0");
            assert(("0")@ =~= seq!['0']);
        }
    } else if d == 1 {
        s.append("1");
        proof {
            reveal_strlit("1");
            assert(("1")@ =~= seq!['1']);
        }
    } else if d == 2 {
        s.append("2");
        proof {
            reveal_strlit("2");
            assert(("2")@ =~= seq!['2']);
        }
    } else if d == 3 {
        s.append("3");
        proof {
            reveal_strlit("3");
            assert(("3")@ =~= seq!['3']);
        }
    } else if d == 4 {
        s.append("4");
        proof {
            reveal_strlit("4");
            assert(("4")@ =~= seq!['4']);
        }
    } else if d == 5 {
        s.append("5");
        proof {
            reveal_strlit("5");
            assert(("5")@ =~= seq!['5']);
        }
    } else if d == 6 {
        s.append("6");
        proof {
            reveal_strlit("6");
            assert(("6")@ =~= seq!['6']);
        }
    } else if d == 7 {
        s.append("7");
        proof {
            reveal_strlit("7");
            assert(("7")@ =~= seq!['7']);
        }
    } else if d == 8 {
        s.append("8");
        proof {
            reveal_strlit("8");
            assert(("8")@ =~= seq!['8']);
        }
    } else {
        s.append("9");
        proof {
            reveal_strlit("9");
            assert(("9")@ =~= seq!['9']);
        }
    }
}

/// Append the decimal text of one address byte.
fn push_octet(s: &mut String, n: u8)
    ensures
        final(s)@ == old(s)@ + decimal_octet(n as int),
{
    let ghost start = s@;
    if n >= 100 {
        push_digit(s, n / 100);
        push_digit(s, (n / 10) % 10);
        push_digit(s, n % 10);
        proof {
            assert(s@ =~= start + decimal_octet(n as int));
        }
    } else if n >= 10 {
        push_digit(s, n / 10);
        push_digit(s, n % 10);
        proof {
            assert(s@ =~= start + decimal_octet(n as int));
        }
    } else {
        push_digit(s, n);
    }
}

/// Render the first four bytes of a local address dot-decimal.
pub fn format_ipv4(octets: &Vec<u8>) -> (r: String)
    requires
        octets@.len() >= 4,
    ensures
        r@ == dotted_quad(octets@),
{
    let mut s = String::new();
    push_octet(&mut s, octets[0]);
    s.append(".");
    push_octet(&mut s, octets[1]);
    s.append(".");
    push_octet(&mut s, octets[2]);
    s.append(".");
    push_octet(&mut s, octets[3]);
    proof {
        reveal_strlit(".");
        assert((".")@ =~= seq!['.']);
        assert(s@ =~= dotted_quad(octets@));
    }
    s
}

/// The local-address bytes chosen by scanning every route-address reply:
/// among the replies whose interface index matches, the last one carrying a
/// local-address attribute wins; a matching attribute shorter than four
/// bytes is malformed (outer `None`).
pub open spec fn local_address_scan(msgs: Seq<MessageView>, interface_index: u32) -> Option<
    Option<Seq<u8>>,
>
    decreases msgs.len(),
{
    if msgs.len() == 0 {
        Some(None)
    } else {
        match local_address_scan(msgs.drop_last(), interface_index) {
            None => None,
            Some(acc) => {
                let m = msgs.last();
                if m.payload is RtmGetAddr && m.payload->RtmGetAddr_0.index == interface_index {
                    match found_attribute(m.payload->RtmGetAddr_0.attributes, IFA_LOCAL) {
                        None => Some(acc),
                        Some(a) => if a.data.len() >= 4 {
                            Some(Some(a.data.take(4)))
                        } else {
                            None
                        },
                    }
                } else {
                    Some(acc)
                }
            },
        }
    }
}

/// A malformed local-address attribute in any prefix of the replies makes
/// the whole scan malformed.
proof fn lemma_local_scan_none(msgs: Seq<MessageView>, interface_index: u32, j: int)
    requires
        0 <= j <= msgs.len(),
        local_address_scan(msgs.take(j), interface_index) is None,
    ensures
        local_address_scan(msgs, interface_index) is None,
    decreases msgs.len() - j,
{
    if j < msgs.len() {
        assert(msgs.take(j + 1).drop_last() =~= msgs.take(j));
        lemma_local_scan_none(msgs, interface_index, j + 1);
    } else {
        assert(msgs.take(j) =~= msgs);
    }
}

/// Extract the interface's local address from a route-address dump and
/// render it dot-decimal.
///
/// Replies for other interfaces are skipped; among matching replies the
/// last local-address attribute wins, as the scan never stops early.
pub fn extract_interface_ip(messages: &Vec<NetlinkMessageHeader>, interface_index: u32) -> (r:
    Result<String, NetlinkError>)
    ensures
        match local_address_scan(msgs_views(messages@), interface_index) {
            None => r == Err::<String, NetlinkError>(NetlinkError::MalformedMessage),
            Some(None) => r == Err::<String, NetlinkError>(NetlinkError::MissingIp),
            Some(Some(o)) => r is Ok && r->Ok_0@ == dotted_quad(o),
        },
{
    let ghost views = msgs_views(messages@);
    let mut found: Option<Vec<u8>> = None;
    let mut i: usize = 0;
    proof {
        assert(views.take(0) =~= Seq::<MessageView>::empty());
    }
    while i < messages.len()
        invariant
            i <= messages@.len(),
            views == msgs_views(messages@),
            local_address_scan(views.take(i as int), interface_index) == Some(
                match found {
                    Some(v) => Some(v@),
                    None => None,
                },
            ),
            found is Some ==> found->Some_0@.len() == 4,
        decreases messages@.len() - i,
    {
        proof {
            assert(views.take(i + 1).drop_last() =~= views.take(i as int));
            assert(views.take(i + 1).last() == views[i as int]);
        }
        let message = &messages[i];
        proof {
            assert(message@ == views[i as int]);
        }
        if let Payload::RtmGetAddr(frame) = &message.payload {
            if frame.index == interface_index {
                match get_attribute(&frame.attributes, IFA_LOCAL) {
                    Some(attribute) => {
                        if attribute.data.len() < 4 {
                            proof {
                                assert(local_address_scan(views.take(i + 1), interface_index)
                                    is None);
                                lemma_local_scan_none(views, interface_index, i + 1);
                            }
                            return Err(NetlinkError::MalformedMessage);
                        }
                        let four = slice_to_vec(slice_subrange(attribute.data.as_slice(), 0, 4));
                        proof {
                            assert(four@ =~= attribute@.data.take(4));
                        }
                        found = Some(four);
                    },
                    None => {},
                }
            }
        }
        i = i + 1;
    }
    proof {
        assert(views.take(views.len() as int) =~= views);
    }
    match found {
        Some(octets) => Ok(format_ipv4(&octets)),
        None => Err(NetlinkError::MissingIp),
    }
}

/// The characters that the lossy UTF-8 reading of a byte sequence yields.
pub uninterp spec fn utf8_lossy_of(b: Seq<u8>) -> Seq<char>;

/// Relies on String::from_utf8_lossy: the characters depend on the bytes
/// alone, with invalid UTF-8 sequences replaced by the replacement
/// character.
#[verifier::external_body]
fn utf8_lossy(bytes: &Vec<u8>) -> (r: String)
    ensures
        r@ == utf8_lossy_of(bytes@),
{
    String::from_utf8_lossy(bytes.as_slice()).into_owned()
}

/// What walking an information-element blob from offset `i` yields: the
/// declared bytes of the first zero-tagged (SSID) element, an orderly stop
/// when the blob runs out before one (inner `None`), or a malformed skip
/// past the end (outer `None`).
///
/// Each element is a tag byte, a length byte, and that many content bytes;
/// nonzero tags are skipped.
pub open spec fn ies_ssid(b: Seq<u8>, i: int) -> Option<Option<Seq<u8>>>
    recommends
        0 <= i <= b.len(),
    decreases b.len() - i,
{
    if b.len() - i > 2 && b[i] != 0 {
        let skip = b[i + 1] + 2;
        if i + skip > b.len() {
            None
        } else {
            ies_ssid(b, i + skip)
        }
    } else {
        if b.len() - i < 2 {
            Some(None)
        } else if b.len() - i < b[i + 1] + 2 {
            Some(None)
        } else {
            Some(Some(b.subrange(i + 2, i + 2 + b[i + 1])))
        }
    }
}

/// Walk an information-element blob for the zero-tagged SSID entry.
fn ssid_from_information_elements(ies: &Vec<u8>) -> (r: Result<Option<Vec<u8>>, NetlinkError>)
    ensures
        match ies_ssid(ies@, 0) {
            None => r == Err::<Option<Vec<u8>>, NetlinkError>(NetlinkError::MalformedMessage),
            Some(None) => r is Ok && r->Ok_0 is None,
            Some(Some(sb)) => r is Ok && r->Ok_0 is Some && r->Ok_0->Some_0@ == sb,
        },
{
    let len = ies.len();
    let mut i: usize = 0;
    while len - i > 2 && ies[i] != 0
        invariant
            i <= len,
            len == ies@.len(),
            ies_ssid(ies@, 0) == ies_ssid(ies@, i as int),
        decreases len - i,
    {
        let skip = ies[i + 1] as usize + 2;
        if skip > len - i {
            return Err(NetlinkError::MalformedMessage);
        }
        i = i + skip;
    }
    if len - i < 2 {
        return Ok(None);
    }
    let l = ies[i + 1] as usize;
    if len - i < l + 2 {
        return Ok(None);
    }
    let ssid_bytes = slice_to_vec(slice_subrange(ies.as_slice(), i + 2, i + 2 + l));
    proof {
        assert(ssid_bytes@ =~= ies@.subrange(i as int + 2, i as int + 2 + l));
    }
    Ok(Some(ssid_bytes))
}

/// The scan state carried over BSS entries from message `i` on: the SSID
/// bytes and the latest frequency seen. The scan stops at the first entry
/// that hands it a nonempty SSID; a truncated element walk stops it without
/// one; a malformed nested attribute, status or frequency field makes the
/// whole scan malformed (`None`).
pub open spec fn scan_from(msgs: Seq<MessageView>, i: int, ssid: Seq<u8>, freq: u32) -> Option<
    (Seq<u8>, u32),
>
    decreases msgs.len() - i, 2int,
{
    if i >= msgs.len() {
        Some((ssid, freq))
    } else {
        match msgs[i].payload {
            PayloadView::GenericNetlink(f) => match found_attribute(
                f.attributes,
                NL80211_ATTR_BSS,
            ) {
                None => scan_from(msgs, i + 1, ssid, freq),
                Some(bss_attr) => match decode_attributes(bss_attr.data, 0) {
                    None => None,
                    Some(bss_attrs) => if bss_attrs.len() == 0 {
                        scan_from(msgs, i + 1, ssid, freq)
                    } else {
                        match found_attribute(bss_attrs, NL80211_BSS_STATUS) {
                            None => scan_from(msgs, i + 1, ssid, freq),
                            Some(st) => if st.data.len() != 4 {
                                None
                            } else if le32_at(st.data, 0) != NL80211_BSS_STATUS_ASSOCIATED
                                && le32_at(st.data, 0) != NL80211_BSS_STATUS_IBSS_JOINED {
                                scan_from(msgs, i + 1, ssid, freq)
                            } else {
                                scan_candidate(msgs, i, ssid, freq, bss_attrs)
                            },
                        }
                    },
                },
            },
            _ => scan_from(msgs, i + 1, ssid, freq),
        }
    }
}

/// One associated (or ad-hoc-joined) BSS entry: take its SSID from the
/// information elements, if present.
pub open spec fn scan_candidate(
    msgs: Seq<MessageView>,
    i: int,
    ssid: Seq<u8>,
    freq: u32,
    bss_attrs: Seq<AttributeView>,
) -> Option<(Seq<u8>, u32)>
    decreases msgs.len() - i, 1int,
{
    if i >= msgs.len() {
        Some((ssid, freq))
    } else {
        match found_attribute(bss_attrs, NL80211_BSS_INFORMATION_ELEMENTS) {
        Some(ie) => match ies_ssid(ie.data, 0) {
            None => None,
            Some(None) => Some((ssid, freq)),
            Some(Some(sb)) => scan_entry_rest(msgs, i, sb, freq, bss_attrs),
        },
        None => scan_entry_rest(msgs, i, ssid, freq, bss_attrs),
        }
    }
}

/// The tail of one matching entry: take its frequency, then stop if the
/// SSID is now known, else scan on.
pub open spec fn scan_entry_rest(
    msgs: Seq<MessageView>,
    i: int,
    ssid: Seq<u8>,
    freq: u32,
    bss_attrs: Seq<AttributeView>,
) -> Option<(Seq<u8>, u32)>
    decreases msgs.len() - i, 0int,
{
    if i >= msgs.len() {
        Some((ssid, freq))
    } else {
        match found_attribute(bss_attrs, NL80211_BSS_FREQUENCY) {
            Some(fa) => if fa.data.len() != 4 {
                None
            } else if ssid.len() > 0 {
                Some((ssid, le32_at(fa.data, 0)))
            } else {
                scan_from(msgs, i + 1, ssid, le32_at(fa.data, 0))
            },
            None => if ssid.len() > 0 {
                Some((ssid, freq))
            } else {
                scan_from(msgs, i + 1, ssid, freq)
            },
        }
    }
}

/// What a whole scan dump yields: SSID bytes and frequency of the BSS the
/// interface is associated with, starting from nothing.
pub open spec fn bss_scan(msgs: Seq<MessageView>) -> Option<(Seq<u8>, u32)> {
    scan_from(msgs, 0, Seq::empty(), 0)
}

/// The association state of a wireless interface: the network's SSID and
/// its operating frequency in megahertz.
pub struct BSSInformation {
    pub ssid: String,
    pub frequency_mhz: u32,
}

/// Extract the associated network's SSID and frequency from a scan dump.
///
/// Every reply message is searched for a BSS entry whose status says
/// associated or ad-hoc joined; entries for networks merely seen are
/// skipped. The first such entry that yields a nonempty SSID wins; its
/// frequency, or the latest one seen before it, comes along.
pub fn extract_bss_information(messages: &Vec<NetlinkMessageHeader>) -> (r: Result<
    BSSInformation,
    NetlinkError,
>)
    ensures
        match bss_scan(msgs_views(messages@)) {
            None => r == Err::<BSSInformation, NetlinkError>(NetlinkError::MalformedMessage),
            Some((sb, freq)) => if sb.len() == 0 {
                r == Err::<BSSInformation, NetlinkError>(NetlinkError::MissingSsid)
            } else {
                &&& r is Ok
                &&& r->Ok_0.ssid@ == utf8_lossy_of(sb)
                &&& r->Ok_0.frequency_mhz == freq
            },
        },
{
    let ghost views = msgs_views(messages@);
    let mut ssid: Vec<u8> = Vec::new();
    let mut frequency: u32 = 0;
    let mut i: usize = 0;
    while i < messages.len()
        invariant_except_break
            i <= messages@.len(),
            views == msgs_views(messages@),
            ssid@.len() == 0,
            bss_scan(views) == scan_from(views, i as int, ssid@, frequency),
        ensures
            views == msgs_views(messages@),
            bss_scan(views) == Some((ssid@, frequency)),
        decreases messages@.len() - i,
    {
        let message = &messages[i];
        proof {
            assert(message@ == views[i as int]);
        }
        let frame = match &message.payload {
            Payload::GenericNetlink(frame) => frame,
            Payload::RtmGetAddr(_) => {
                i = i + 1;
                continue ;
            },
            Payload::Done(_) => {
                i = i + 1;
                continue ;
            },
            Payload::Error(_) => {
                i = i + 1;
                continue ;
            },
        };
        let bss_attribute = match get_attribute(&frame.attributes, NL80211_ATTR_BSS) {
            Some(attribute) => attribute,
            None => {
                i = i + 1;
                continue ;
            },
        };
        let mut bss_cursor = WalkingVec::new(slice_to_vec(bss_attribute.data.as_slice()));
        let bss_attributes = match parse_attributes(&mut bss_cursor) {
            Ok(attrs) => attrs,
            Err(e) => {
                return Err(e);
            },
        };
        if bss_attributes.len() == 0 {
            i = i + 1;
            continue ;
        }
        let status_attribute = match get_attribute(&bss_attributes, NL80211_BSS_STATUS) {
            Some(attribute) => attribute,
            None => {
                i = i + 1;
                continue ;
            },
        };
        if status_attribute.data.len() != 4 {
            return Err(NetlinkError::MalformedMessage);
        }
        let status = le32_of_vec(&status_attribute.data);
        if status != NL80211_BSS_STATUS_ASSOCIATED && status != NL80211_BSS_STATUS_IBSS_JOINED {
            i = i + 1;
            continue ;
        }
        let ghost entry_ssid = ssid@;
        let ghost entry_freq = frequency;
        let ghost bss_attr_views = crate::netlink_header::attrs_views(bss_attributes@);
        proof {
            assert(scan_from(views, i as int, entry_ssid, entry_freq) == scan_candidate(
                views,
                i as int,
                entry_ssid,
                entry_freq,
                bss_attr_views,
            ));
        }
        match get_attribute(&bss_attributes, NL80211_BSS_INFORMATION_ELEMENTS) {
            Some(ie_attribute) => {
                match ssid_from_information_elements(&ie_attribute.data) {
                    Err(e) => {
                        return Err(e);
                    },
                    Ok(None) => {
                        proof {
                            assert(scan_candidate(
                                views,
                                i as int,
                                entry_ssid,
                                entry_freq,
                                bss_attr_views,
                            ) == Some((entry_ssid, entry_freq)));
                            assert(bss_scan(views) == Some((ssid@, frequency)));
                        }
                        break ;
                    },
                    Ok(Some(bytes)) => {
                        ssid = bytes;
                        proof {
                            assert(scan_candidate(
                                views,
                                i as int,
                                entry_ssid,
                                entry_freq,
                                bss_attr_views,
                            ) == scan_entry_rest(
                                views,
                                i as int,
                                ssid@,
                                entry_freq,
                                bss_attr_views,
                            ));
                        }
                    },
                }
            },
            None => {
                proof {
                    assert(scan_candidate(
                        views,
                        i as int,
                        entry_ssid,
                        entry_freq,
                        bss_attr_views,
                    ) == scan_entry_rest(views, i as int, ssid@, entry_freq, bss_attr_views));
                }
            },
        }
        match get_attribute(&bss_attributes, NL80211_BSS_FREQUENCY) {
            Some(freq_attribute) => {
                if freq_attribute.data.len() != 4 {
                    return Err(NetlinkError::MalformedMessage);
                }
                frequency = le32_of_vec(&freq_attribute.data);
            },
            None => {},
        }
        proof {
            assert(scan_entry_rest(views, i as int, ssid@, entry_freq, bss_attr_views) == (
            if ssid@.len() > 0 {
                Some((ssid@, frequency))
            } else {
                scan_from(views, i + 1, ssid@, frequency)
            }));
        }
        if ssid.len() > 0 {
            proof {
                assert(bss_scan(views) == Some((ssid@, frequency)));
            }
            break ;
        }
        i = i + 1;
    }
    if ssid.len() == 0 {
        return Err(NetlinkError::MissingSsid);
    }
    let ssid_string = utf8_lossy(&ssid);
    Ok(BSSInformation { ssid: ssid_string, frequency_mhz: frequency })
}

/// Everything the status consumer wants to know of one wireless interface:
/// the associated network's SSID, the interface's local address rendered
/// dot-decimal, the operating frequency in megahertz, and the transmit
/// bitrate in megabits per second.
pub struct InterfaceInformation {
    pub ssid: String,
    pub ip: String,
    pub frequency_mhz: u32,
    pub bitrate: u16,
}

/// Compose the three decoded responses of one interface query into its
/// information record.
///
/// Failures propagate in query order: association state first, then the
/// address, then the bitrate — though the bitrate itself is best effort and
/// only fails on malformed bytes.
pub fn interface_information(
    scan_messages: &Vec<NetlinkMessageHeader>,
    address_messages: &Vec<NetlinkMessageHeader>,
    station_messages: &Vec<NetlinkMessageHeader>,
    interface_index: u32,
) -> (r: Result<InterfaceInformation, NetlinkError>)
    ensures
        match bss_scan(msgs_views(scan_messages@)) {
            None => r == Err::<InterfaceInformation, NetlinkError>(NetlinkError::MalformedMessage),
            Some((sb, freq)) => if sb.len() == 0 {
                r == Err::<InterfaceInformation, NetlinkError>(NetlinkError::MissingSsid)
            } else {
                match local_address_scan(msgs_views(address_messages@), interface_index) {
                    None => r == Err::<InterfaceInformation, NetlinkError>(
                        NetlinkError::MalformedMessage,
                    ),
                    Some(None) => r == Err::<InterfaceInformation, NetlinkError>(
                        NetlinkError::MissingIp,
                    ),
                    Some(Some(o)) => match bitrate_of(msgs_views(station_messages@)) {
                        None => r == Err::<InterfaceInformation, NetlinkError>(
                            NetlinkError::MalformedMessage,
                        ),
                        Some(b) => {
                            &&& r is Ok
                            &&& r->Ok_0.ssid@ == utf8_lossy_of(sb)
                            &&& r->Ok_0.frequency_mhz == freq
                            &&& r->Ok_0.ip@ == dotted_quad(o)
                            &&& r->Ok_0.bitrate == b
                        },
                    },
                }
            },
        },
{
    let bss = match extract_bss_information(scan_messages) {
        Ok(bss) => bss,
        Err(e) => {
            return Err(e);
        },
    };
    let ip = match extract_interface_ip(address_messages, interface_index) {
        Ok(ip) => ip,
        Err(e) => {
            return Err(e);
        },
    };
    let bitrate = match extract_bitrate(station_messages) {
        Ok(bitrate) => bitrate,
        Err(e) => {
            return Err(e);
        },
    };
    Ok(
        InterfaceInformation {
            ssid: bss.ssid,
            ip,
            frequency_mhz: bss.frequency_mhz,
            bitrate,
        },
    )
}

} // verus!
