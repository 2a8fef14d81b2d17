//! Client-side codec and query logic for the kernel's netlink wire protocol.
//!
//! The crate covers the pure protocol work of a wireless status probe: framing
//! and parsing netlink messages (outer header, generic-netlink and
//! route-address payloads, tagged-length-value attribute lists), reassembling
//! multi-datagram responses, and extracting association state (SSID,
//! frequency, bitrate) and interface addresses from decoded attribute trees.
//! Socket I/O stays outside: callers hand in the datagrams the kernel sent
//! back and receive plain values.

pub mod bytes;
pub mod constants;
pub mod error;
pub mod generic_netlink_header;
pub mod interface_address_message;
pub mod netlink_attribute;
pub mod netlink_header;
pub mod query;
pub mod transport;
pub mod walking_vec;
