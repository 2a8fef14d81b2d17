use vstd::prelude::*;
use vstd::slice::{slice_subrange, slice_to_vec};
use crate::bytes::{
    le16_at, le16_bytes, le32_at, le32_bytes, push_u16_le, push_u32_le, signed32, take_i32_le,
    take_u16_le, take_u32_le, unsigned32,
};
use crate::constants::{NETLINK_HEADER_SIZE, NLMSG_DONE, NLMSG_ERROR, RTM_NEWADDR};
use crate::error::NetlinkError;
use crate::generic_netlink_header::{
    decode_generic_frame, GenericFrameView, GenericNetlinkMessageHeader,
};
use crate::interface_address_message::{
    decode_address_frame, AddressFrameView, InterfaceAddressMessage,
};
use crate::netlink_attribute::{
    decode_attribute, lemma_decode_attribute_advances, AttributeView, NetlinkAttribute,
};
use crate::walking_vec::WalkingVec;

verus! {

/// The views of a sequence of attributes.
pub open spec fn attrs_views(attrs: Seq<NetlinkAttribute>) -> Seq<AttributeView> {
    attrs.map_values(|a: NetlinkAttribute| a@)
}

/// What decoding attributes from `pos` to the very end of `b` yields: the
/// flat ordered attribute list, or nothing when some attribute is malformed.
pub open spec fn decode_attributes(b: Seq<u8>, pos: int) -> Option<Seq<AttributeView>>
    decreases b.len() - pos,
{
    if pos == b.len() {
        Some(Seq::empty())
    } else {
        match decode_attribute(b, pos) {
            None => None,
            Some((a, end)) => if pos < end <= b.len() {
                match decode_attributes(b, end) {
                    None => None,
                    Some(rest) => Some(seq![a] + rest),
                }
            } else {
                None
            },
        }
    }
}

/// A prefix in front moves attribute-list decoding along unchanged.
pub proof fn lemma_decode_attributes_prefix(prefix: Seq<u8>, b: Seq<u8>, pos: int)
    requires
        0 <= pos <= b.len(),
    ensures
        decode_attributes(prefix + b, prefix.len() + pos) == decode_attributes(b, pos),
    decreases b.len() - pos,
{
    crate::netlink_attribute::lemma_decode_attribute_prefix(prefix, b, pos);
    if pos == b.len() {
    } else {
        match decode_attribute(b, pos) {
            None => {},
            Some((a, end)) => {
                lemma_decode_attribute_advances(b, pos);
                lemma_decode_attributes_prefix(prefix, b, end);
            },
        }
    }
}

/// Round trip: decoding the concatenated encoding of well-formed attributes
/// yields exactly those attributes.
pub proof fn lemma_attributes_round_trip(attrs: Seq<AttributeView>)
    requires
        crate::netlink_attribute::attrs_wf(attrs),
    ensures
        decode_attributes(crate::netlink_attribute::attrs_encoding(attrs), 0) == Some(attrs),
    decreases attrs.len(),
{
    if attrs.len() == 0 {
        assert(Seq::<AttributeView>::empty() =~= attrs);
    } else {
        let e0 = attrs[0].encoding();
        let rest = crate::netlink_attribute::attrs_encoding(attrs.drop_first());
        crate::netlink_attribute::lemma_attribute_round_trip_with_suffix(attrs[0], rest);
        lemma_decode_attributes_prefix(e0, rest, 0);
        crate::netlink_attribute::lemma_attrs_wf_drop_first(attrs);
        lemma_attributes_round_trip(attrs.drop_first());
        crate::netlink_attribute::lemma_align4_properties(attrs[0].length as int);
        assert(seq![attrs[0]] + attrs.drop_first() =~= attrs);
    }
}

/// Prepend a decoded prefix to the outcome of decoding the remainder.
pub open spec fn with_prefix(
    v: Seq<AttributeView>,
    o: Option<Seq<AttributeView>>,
) -> Option<Seq<AttributeView>> {
    match o {
        None => None,
        Some(rest) => Some(v + rest),
    }
}

/// The first attribute of the given type, if any; later duplicates are
/// ignored.
pub open spec fn found_attribute(
    attrs: Seq<AttributeView>,
    attribute_type: u16,
) -> Option<AttributeView>
    decreases attrs.len(),
{
    if attrs.len() == 0 {
        None
    } else if attrs[0].attribute_type == attribute_type {
        Some(attrs[0])
    } else {
        found_attribute(attrs.drop_first(), attribute_type)
    }
}

/// Linear scan for the first attribute with the given type code.
pub fn get_attribute<'a>(
    attributes: &'a Vec<NetlinkAttribute>,
    attribute_type: u16,
) -> (r: Option<&'a NetlinkAttribute>)
    ensures
        match r {
            Some(a) => found_attribute(attrs_views(attributes@), attribute_type) == Some(a@),
            None => found_attribute(attrs_views(attributes@), attribute_type) is None,
        },
{
    let ghost s = attrs_views(attributes@);
    let mut i: usize = 0;
    proof {
        assert(s.skip(0) =~= s);
    }
    while i < attributes.len()
        invariant
            i <= attributes@.len(),
            s == attrs_views(attributes@),
            found_attribute(s, attribute_type) == found_attribute(
                s.skip(i as int),
                attribute_type,
            ),
        decreases attributes@.len() - i,
    {
        let attr = &attributes[i];
        if attr.attribute_type == attribute_type {
            proof {
                assert(s.skip(i as int)[0] == s[i as int]);
            }
            return Some(attr);
        }
        proof {
            assert(s.skip(i as int).drop_first() =~= s.skip(i as int + 1));
        }
        i = i + 1;
    }
    proof {
        assert(s.skip(i as int).len() == 0);
    }
    None
}

/// Decode attributes until the cursor reaches the end of its buffer.
///
/// Nested attribute blobs are expanded by wrapping an attribute's data in a
/// fresh cursor and calling this again.
pub fn parse_attributes(buffer: &mut WalkingVec) -> (r: Result<
    Vec<NetlinkAttribute>,
    NetlinkError,
>)
    requires
        old(buffer).wf(),
    ensures
        final(buffer).wf(),
        final(buffer).buffer@ == old(buffer).buffer@,
        match r {
            Ok(attrs) => {
                &&& decode_attributes(old(buffer).buffer@, old(buffer).position as int) == Some(
                    attrs_views(attrs@),
                )
                &&& final(buffer).position == old(buffer).buffer@.len()
            },
            Err(e) => {
                &&& e == NetlinkError::MalformedMessage
                &&& decode_attributes(old(buffer).buffer@, old(buffer).position as int) is None
            },
        },
{
    let ghost b = old(buffer).buffer@;
    let ghost pos0 = old(buffer).position as int;
    let mut attributes: Vec<NetlinkAttribute> = Vec::new();
    proof {
        let d = decode_attributes(b, pos0);
        if d is Some {
            assert(attrs_views(attributes@) + d->Some_0 =~= d->Some_0);
        }
    }
    while !buffer.reached_end()
        invariant
            buffer.wf(),
            b == old(buffer).buffer@,
            pos0 == old(buffer).position as int,
            buffer.buffer@ == b,
            decode_attributes(b, pos0) == with_prefix(
                attrs_views(attributes@),
                decode_attributes(b, buffer.position as int),
            ),
        decreases b.len() - buffer.position,
    {
        let ghost cur = buffer.position as int;
        let ghost prev = attributes@;
        match NetlinkAttribute::deserialize(buffer) {
            Ok(attribute) => {
                attributes.push(attribute);
                proof {
                    lemma_decode_attribute_advances(b, cur);
                    let rest = decode_attributes(b, buffer.position as int);
                    assert(attrs_views(attributes@) =~= attrs_views(prev).push(attribute@));
                    if rest is Some {
                        assert(attrs_views(prev) + (seq![attribute@] + rest->Some_0)
                            =~= attrs_views(attributes@) + rest->Some_0);
                    }
                }
            },
            Err(_) => {
                return Err(NetlinkError::MalformedMessage);
            },
        }
    }
    proof {
        assert(decode_attributes(b, buffer.position as int) == Some(Seq::<AttributeView>::empty()));
        assert(attrs_views(attributes@) + Seq::<AttributeView>::empty() =~= attrs_views(
            attributes@,
        ));
    }
    Ok(attributes)
}

/// What one netlink message carries: a generic-netlink frame, a
/// route-address frame, or one of the two terminal sentinels with a signed
/// kernel code. Sentinels are only ever received, never sent.
pub enum Payload {
    GenericNetlink(GenericNetlinkMessageHeader),
    RtmGetAddr(InterfaceAddressMessage),
    Done(i32),
    Error(i32),
}

/// The mathematical shape of a payload.
pub enum PayloadView {
    GenericNetlink(GenericFrameView),
    RtmGetAddr(AddressFrameView),
    Done(i32),
    Error(i32),
}

impl PayloadView {
    /// The exact encoded byte count of the payload.
    pub open spec fn size(self) -> int {
        match self {
            PayloadView::GenericNetlink(f) => f.size(),
            PayloadView::RtmGetAddr(f) => f.size(),
            PayloadView::Done(_) => 4,
            PayloadView::Error(_) => 4,
        }
    }

    /// Every attribute of a carried frame is well formed.
    pub open spec fn wf(self) -> bool {
        match self {
            PayloadView::GenericNetlink(f) => f.wf(),
            PayloadView::RtmGetAddr(f) => f.wf(),
            PayloadView::Done(_) => true,
            PayloadView::Error(_) => true,
        }
    }

    /// Whether this payload terminates an exchange.
    pub open spec fn is_sentinel(self) -> bool {
        self is Done || self is Error
    }

    /// The exact wire encoding of the payload.
    pub open spec fn encoding(self) -> Seq<u8> {
        match self {
            PayloadView::GenericNetlink(f) => f.encoding(),
            PayloadView::RtmGetAddr(f) => f.encoding(),
            PayloadView::Done(c) => le32_bytes(unsigned32(c)),
            PayloadView::Error(c) => le32_bytes(unsigned32(c)),
        }
    }
}

impl View for Payload {
    type V = PayloadView;

    open spec fn view(&self) -> PayloadView {
        match self {
            Payload::GenericNetlink(f) => PayloadView::GenericNetlink(f@),
            Payload::RtmGetAddr(f) => PayloadView::RtmGetAddr(f@),
            Payload::Done(c) => PayloadView::Done(*c),
            Payload::Error(c) => PayloadView::Error(*c),
        }
    }
}

impl Payload {
    /// The exact encoded byte count of the payload.
    pub fn size(&self) -> (r: usize)
        requires
            self@.size() <= usize::MAX,
        ensures
            r == self@.size(),
    {
        match self {
            Payload::GenericNetlink(p) => p.size(),
            Payload::RtmGetAddr(p) => p.size(),
            Payload::Done(_) => 4,
            Payload::Error(_) => 4,
        }
    }
}

/// The outermost wire shape: a 16-byte header (total length, message type,
/// flags, sequence number, process id) wrapping one payload.
///
/// The length field counts the whole frame, header included, so it is at
/// least 16 on any well-formed message.
pub struct NetlinkMessageHeader {
    pub length: u32,
    pub message_type: u16,
    pub flags: u16,
    pub sequence_number: u32,
    pub pid: u32,
    pub payload: Payload,
}

/// The mathematical shape of a netlink message.
pub struct MessageView {
    pub length: u32,
    pub message_type: u16,
    pub flags: u16,
    pub sequence_number: u32,
    pub pid: u32,
    pub payload: PayloadView,
}

impl MessageView {
    /// The length field counts the header and the payload, and the payload
    /// is well formed.
    pub open spec fn wf(self) -> bool {
        &&& self.payload.wf()
        &&& self.length == 16 + self.payload.size()
    }

    /// The exact wire encoding: the five header fields little-endian, then
    /// the payload.
    pub open spec fn encoding(self) -> Seq<u8> {
        le32_bytes(self.length) + le16_bytes(self.message_type) + le16_bytes(self.flags)
            + le32_bytes(self.sequence_number) + le32_bytes(self.pid) + self.payload.encoding()
    }
}

impl View for NetlinkMessageHeader {
    type V = MessageView;

    open spec fn view(&self) -> MessageView {
        MessageView {
            length: self.length,
            message_type: self.message_type,
            flags: self.flags,
            sequence_number: self.sequence_number,
            pid: self.pid,
            payload: self.payload@,
        }
    }
}

/// What decoding one message at position `pos` of `b` yields: the message
/// and the position just past its declared length.
///
/// The dispatch on the message type is the protocol's only state machine:
/// a done sentinel and an error sentinel carry a signed code read right
/// after the header; an address-dump reply carries a route-address frame; any
/// other type carries a generic-netlink frame. Frames are decoded against a
/// buffer bounded exactly to `length - 16` content bytes, so a frame can
/// never pull bytes belonging to the next message.
pub open spec fn decode_message(b: Seq<u8>, pos: int) -> Option<(MessageView, int)> {
    if pos + 16 <= b.len() {
        let length = le32_at(b, pos);
        let message_type = le16_at(b, pos + 4);
        let flags = le16_at(b, pos + 6);
        let sequence_number = le32_at(b, pos + 8);
        let pid = le32_at(b, pos + 12);
        if length < 16 || pos + length > b.len() {
            None
        } else {
            let end = pos + length;
            if message_type == NLMSG_DONE || message_type == NLMSG_ERROR {
                if pos + 20 <= b.len() {
                    let code = signed32(le32_at(b, pos + 16)) as i32;
                    let payload = if message_type == NLMSG_DONE {
                        PayloadView::Done(code)
                    } else {
                        PayloadView::Error(code)
                    };
                    Some(
                        (
                            MessageView {
                                length,
                                message_type,
                                flags,
                                sequence_number,
                                pid,
                                payload,
                            },
                            end,
                        ),
                    )
                } else {
                    None
                }
            } else if message_type == RTM_NEWADDR {
                match decode_address_frame(b.subrange(pos + 16, end), 0) {
                    None => None,
                    Some(f) => Some(
                        (
                            MessageView {
                                length,
                                message_type,
                                flags,
                                sequence_number,
                                pid,
                                payload: PayloadView::RtmGetAddr(f),
                            },
                            end,
                        ),
                    ),
                }
            } else {
                match decode_generic_frame(b.subrange(pos + 16, end), 0) {
                    None => None,
                    Some(f) => Some(
                        (
                            MessageView {
                                length,
                                message_type,
                                flags,
                                sequence_number,
                                pid,
                                payload: PayloadView::GenericNetlink(f),
                            },
                            end,
                        ),
                    ),
                }
            }
        }
    } else {
        None
    }
}

/// The message type agrees with the payload kind, as the decoder's dispatch
/// reads it: sentinels carry their own types, address frames the
/// address-reply type, and generic frames anything else.
pub open spec fn dispatch_consistent(m: MessageView) -> bool {
    match m.payload {
        PayloadView::GenericNetlink(_) => m.message_type != NLMSG_DONE && m.message_type
            != NLMSG_ERROR && m.message_type != RTM_NEWADDR,
        PayloadView::RtmGetAddr(_) => m.message_type == RTM_NEWADDR,
        PayloadView::Done(_) => m.message_type == NLMSG_DONE,
        PayloadView::Error(_) => m.message_type == NLMSG_ERROR,
    }
}

/// A well-formed payload encodes to exactly as many bytes as its size says.
pub proof fn lemma_payload_encoding_len(p: PayloadView)
    requires
        p.wf(),
    ensures
        p.encoding().len() == p.size(),
{
    match p {
        PayloadView::GenericNetlink(f) => {
            crate::netlink_attribute::lemma_attrs_encoding_len(f.attributes);
        },
        PayloadView::RtmGetAddr(f) => {
            crate::netlink_attribute::lemma_attrs_encoding_len(f.attributes);
        },
        PayloadView::Done(_) => {},
        PayloadView::Error(_) => {},
    }
}

/// The five header fields of a message encoding.
pub open spec fn message_header_bytes(m: MessageView) -> Seq<u8> {
    le32_bytes(m.length) + le16_bytes(m.message_type) + le16_bytes(m.flags) + le32_bytes(
        m.sequence_number,
    ) + le32_bytes(m.pid)
}

/// Reading the header fields back from an encoding with anything after the
/// header gives the encoded values.
#[verifier::rlimit(100)]
#[verifier::spinoff_prover]
proof fn lemma_header_reads(m: MessageView, rest: Seq<u8>)
    ensures
        ({
            let c = message_header_bytes(m) + rest;
            &&& c.len() == 16 + rest.len()
            &&& le32_at(c, 0) == m.length
            &&& le16_at(c, 4) == m.message_type
            &&& le16_at(c, 6) == m.flags
            &&& le32_at(c, 8) == m.sequence_number
            &&& le32_at(c, 12) == m.pid
            &&& c.subrange(16, c.len() as int) == rest
        }),
{
    let c = message_header_bytes(m) + rest;
    assert(c[0] == le32_bytes(m.length)[0]);
    assert(c[1] == le32_bytes(m.length)[1]);
    assert(c[2] == le32_bytes(m.length)[2]);
    assert(c[3] == le32_bytes(m.length)[3]);
    crate::bytes::lemma_le32_at_of_bytes(c, 0, m.length);
    assert(le16_at(c, 4) == m.message_type);
    assert(le16_at(c, 6) == m.flags);
    assert(c[8] == le32_bytes(m.sequence_number)[0]);
    assert(c[9] == le32_bytes(m.sequence_number)[1]);
    assert(c[10] == le32_bytes(m.sequence_number)[2]);
    assert(c[11] == le32_bytes(m.sequence_number)[3]);
    crate::bytes::lemma_le32_at_of_bytes(c, 8, m.sequence_number);
    assert(c[12] == le32_bytes(m.pid)[0]);
    assert(c[13] == le32_bytes(m.pid)[1]);
    assert(c[14] == le32_bytes(m.pid)[2]);
    assert(c[15] == le32_bytes(m.pid)[3]);
    crate::bytes::lemma_le32_at_of_bytes(c, 12, m.pid);
    assert(c.subrange(16, c.len() as int) =~= rest);
}

/// The sentinel code of a done or error message reads back from right after
/// the header.
#[verifier::rlimit(100)]
#[verifier::spinoff_prover]
proof fn lemma_sentinel_code_reads(m: MessageView, suffix: Seq<u8>)
    requires
        m.payload.is_sentinel(),
    ensures
        ({
            let c = message_header_bytes(m) + (m.payload.encoding() + suffix);
            signed32(le32_at(c, 16)) == sentinel_payload_code(m.payload)
        }),
{
    let code = sentinel_payload_code(m.payload);
    let c = message_header_bytes(m) + (m.payload.encoding() + suffix);
    assert(c[16] == le32_bytes(unsigned32(code))[0]);
    assert(c[17] == le32_bytes(unsigned32(code))[1]);
    assert(c[18] == le32_bytes(unsigned32(code))[2]);
    assert(c[19] == le32_bytes(unsigned32(code))[3]);
    crate::bytes::lemma_le32_at_of_bytes(c, 16, unsigned32(code));
    crate::bytes::lemma_signed32_round_trip(code);
}

/// The signed code a sentinel payload carries; zero for frames.
pub open spec fn sentinel_payload_code(p: PayloadView) -> i32 {
    match p {
        PayloadView::Done(c) => c,
        PayloadView::Error(c) => c,
        PayloadView::GenericNetlink(_) => 0,
        PayloadView::RtmGetAddr(_) => 0,
    }
}

/// Round trip: decoding the encoding of a well-formed, consistently typed
/// message, with anything after it, yields that message again and steps
/// exactly its declared length forward.
#[verifier::rlimit(100)]
#[verifier::spinoff_prover]
pub proof fn lemma_message_round_trip(m: MessageView, suffix: Seq<u8>)
    requires
        m.wf(),
        dispatch_consistent(m),
    ensures
        m.encoding().len() == m.length,
        decode_message(m.encoding() + suffix, 0) == Some((m, m.length as int)),
{
    lemma_payload_encoding_len(m.payload);
    let rest = m.payload.encoding() + suffix;
    let c = message_header_bytes(m) + rest;
    lemma_header_reads(m, rest);
    assert(c.subrange(16, m.length as int) =~= m.payload.encoding());
    match m.payload {
        PayloadView::GenericNetlink(f) => {
            crate::generic_netlink_header::lemma_generic_frame_round_trip(f);
            assert(decode_generic_frame(c.subrange(16, m.length as int), 0) == Some(f));
        },
        PayloadView::RtmGetAddr(f) => {
            crate::interface_address_message::lemma_address_frame_round_trip(f);
            assert(decode_address_frame(c.subrange(16, m.length as int), 0) == Some(f));
        },
        PayloadView::Done(_) => {
            lemma_sentinel_code_reads(m, suffix);
        },
        PayloadView::Error(_) => {
            lemma_sentinel_code_reads(m, suffix);
        },
    }
    assert(decode_message(c, 0) == Some((m, m.length as int)));
    assert(m.encoding() + suffix =~= c);
}

/// Decoding one message reads only bytes from its position on, so a prefix
/// in front moves the result along unchanged.
#[verifier::rlimit(100)]
#[verifier::spinoff_prover]
pub proof fn lemma_decode_message_prefix(prefix: Seq<u8>, b: Seq<u8>, pos: int)
    requires
        0 <= pos <= b.len(),
    ensures
        decode_message(prefix + b, prefix.len() + pos) == match decode_message(b, pos) {
            None => None::<(MessageView, int)>,
            Some((m, end)) => Some((m, prefix.len() + end)),
        },
{
    let c = prefix + b;
    let cpos = prefix.len() + pos;
    if pos + 16 <= b.len() {
        assert forall|k: int| 0 <= k < 20 && pos + k < b.len() implies #[trigger] c[cpos + k]
            == b[pos + k] by {
            assert(c[prefix.len() + (pos + k)] == b[pos + k]);
        }
        let length = le32_at(b, pos);
        assert(le32_at(c, cpos) == le32_at(b, pos));
        assert(le16_at(c, cpos + 4) == le16_at(b, pos + 4));
        assert(le16_at(c, cpos + 6) == le16_at(b, pos + 6));
        assert(le32_at(c, cpos + 8) == le32_at(b, pos + 8));
        assert(le32_at(c, cpos + 12) == le32_at(b, pos + 12));
        if pos + 20 <= b.len() {
            assert(le32_at(c, cpos + 16) == le32_at(b, pos + 16));
        }
        if 16 <= length && pos + length <= b.len() {
            assert(c.subrange(cpos + 16, cpos + length) =~= b.subrange(pos + 16, pos + length));
        }
    }
}

/// A decoded message ends strictly later than it starts, within the buffer.
pub proof fn lemma_decode_message_advances(b: Seq<u8>, pos: int)
    requires
        0 <= pos,
        decode_message(b, pos) is Some,
    ensures
        pos < decode_message(b, pos)->Some_0.1 <= b.len(),
        decode_message(b, pos)->Some_0.1 == pos + decode_message(b, pos)->Some_0.0.length,
{
}

impl NetlinkMessageHeader {
    /// Frame a request: the length counts the 16-byte header and the
    /// payload, the sequence number stays zero (each round trip is
    /// synchronous and self-contained), and the sender's process id is
    /// carried as given.
    pub fn build(message_type: u16, flags: u16, payload: Payload, pid: u32) -> (r:
        NetlinkMessageHeader)
        requires
            16 + payload@.size() <= u32::MAX,
        ensures
            r@ == (MessageView {
                length: (16 + payload@.size()) as u32,
                message_type,
                flags,
                sequence_number: 0,
                pid,
                payload: payload@,
            }),
    {
        let payload_size = payload.size();
        let length = (NETLINK_HEADER_SIZE + payload_size) as u32;
        NetlinkMessageHeader {
            length,
            message_type,
            flags,
            sequence_number: 0,
            pid,
            payload,
        }
    }

    /// Encode the message: header fields little-endian, then the payload.
    /// Sentinel payloads are never sent, so they are excluded here.
    pub fn serialize(self) -> (r: Vec<u8>)
        requires
            self@.payload.wf(),
            !self@.payload.is_sentinel(),
        ensures
            r@ == self@.encoding(),
    {
        let mut buffer: Vec<u8> = Vec::new();
        push_u32_le(&mut buffer, self.length);
        push_u16_le(&mut buffer, self.message_type);
        push_u16_le(&mut buffer, self.flags);
        push_u32_le(&mut buffer, self.sequence_number);
        push_u32_le(&mut buffer, self.pid);
        let mut piece = match self.payload {
            Payload::GenericNetlink(message) => message.serialize(),
            Payload::RtmGetAddr(message) => message.serialize(),
            Payload::Done(_) => Vec::new(),
            Payload::Error(_) => Vec::new(),
        };
        buffer.append(&mut piece);
        proof {
            assert(buffer@ =~= self@.encoding());
        }
        buffer
    }

    /// Decode one message from the cursor, advancing it by the message's
    /// declared length.
    ///
    /// A header overrunning the buffer, a length field under 16 or past the
    /// end, a sentinel without its code bytes, or a malformed inner frame is
    /// reported as `MalformedMessage` instead of aborting.
    pub fn deserialize(walkable_buffer: &mut WalkingVec) -> (r: Result<
        NetlinkMessageHeader,
        NetlinkError,
    >)
        requires
            old(walkable_buffer).wf(),
        ensures
            final(walkable_buffer).wf(),
            final(walkable_buffer).buffer@ == old(walkable_buffer).buffer@,
            match r {
                Ok(message) => decode_message(
                    old(walkable_buffer).buffer@,
                    old(walkable_buffer).position as int,
                ) == Some((message@, final(walkable_buffer).position as int)),
                Err(e) => {
                    &&& e == NetlinkError::MalformedMessage
                    &&& decode_message(
                        old(walkable_buffer).buffer@,
                        old(walkable_buffer).position as int,
                    ) is None
                },
            },
    {
        let buffer_len = walkable_buffer.buffer.len();
        let pos0 = walkable_buffer.position;
        if buffer_len - pos0 < 16 {
            return Err(NetlinkError::MalformedMessage);
        }
        let length = take_u32_le(walkable_buffer);
        let message_type = take_u16_le(walkable_buffer);
        let flags = take_u16_le(walkable_buffer);
        let sequence_number = take_u32_le(walkable_buffer);
        let pid = take_u32_le(walkable_buffer);
        if length < 16 {
            return Err(NetlinkError::MalformedMessage);
        }
        if length as usize > buffer_len - pos0 {
            return Err(NetlinkError::MalformedMessage);
        }
        let payload = if message_type == NLMSG_DONE || message_type == NLMSG_ERROR {
            if buffer_len - walkable_buffer.position < 4 {
                return Err(NetlinkError::MalformedMessage);
            }
            let code = take_i32_le(walkable_buffer);
            if message_type == NLMSG_DONE {
                Payload::Done(code)
            } else {
                Payload::Error(code)
            }
        } else {
            let content = slice_to_vec(
                slice_subrange(
                    walkable_buffer.buffer.as_slice(),
                    pos0 + 16,
                    pos0 + length as usize,
                ),
            );
            let mut limited_walking_buffer = WalkingVec::new(content);
            if message_type == RTM_NEWADDR {
                match InterfaceAddressMessage::deserialize(&mut limited_walking_buffer) {
                    Ok(message) => Payload::RtmGetAddr(message),
                    Err(e) => {
                        return Err(e);
                    },
                }
            } else {
                match GenericNetlinkMessageHeader::deserialize(&mut limited_walking_buffer) {
                    Ok(message) => Payload::GenericNetlink(message),
                    Err(e) => {
                        return Err(e);
                    },
                }
            }
        };
        walkable_buffer.position = pos0 + length as usize;
        Ok(
            NetlinkMessageHeader {
                length,
                message_type,
                flags,
                sequence_number,
                pid,
                payload,
            },
        )
    }
}

} // verus!
