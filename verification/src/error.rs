use vstd::prelude::*;

verus! {

/// Failures surfaced by the netlink codec and query layer.
///
/// Every decode path reports a recoverable `MalformedMessage` instead of
/// aborting when a length field or a fixed-width read does not fit the bytes
/// that were actually received.
#[derive(Clone, Copy, Debug, PartialEq, Eq, Structural)]
pub enum NetlinkError {
    /// A length field or fixed-width field did not match the received bytes.
    MalformedMessage,
    /// The receive loop finished without accumulating any message.
    NoResponse,
    /// The kernel answered a request of the given message type with an error
    /// sentinel carrying this nonzero code.
    KernelError { message_type: u16, code: i32 },
    /// The control-family answer held no family-id attribute.
    MissingFamilyId,
    /// No associated BSS entry with a readable SSID was found.
    MissingSsid,
    /// No local-address attribute was found for the interface.
    MissingIp,
}

} // verus!
