use vstd::prelude::*;
use crate::bytes::{le32_at, le32_bytes, push_u32_le, take_u32_le, take_u8};
use crate::error::NetlinkError;
use crate::netlink_attribute::{
    attrs_encoding, attrs_size, attrs_wf, lemma_attrs_push, lemma_attrs_size_take_le,
    AttributeView, NetlinkAttribute,
};
use crate::netlink_header::{attrs_views, decode_attributes, parse_attributes};
use crate::walking_vec::WalkingVec;

verus! {

/// The payload shape of a route-netlink interface-address dump entry:
/// address family, prefix length, flags, scope, interface index, and a flat
/// attribute list.
pub struct InterfaceAddressMessage {
    pub family: u8,
    pub prefix_length: u8,
    pub flags: u8,
    pub scope: u8,
    pub index: u32,
    pub attributes: Vec<NetlinkAttribute>,
}

/// The mathematical shape of a route-address frame.
pub struct AddressFrameView {
    pub family: u8,
    pub prefix_length: u8,
    pub flags: u8,
    pub scope: u8,
    pub index: u32,
    pub attributes: Seq<AttributeView>,
}

impl AddressFrameView {
    /// Every attribute carries a length field that agrees with its data.
    pub open spec fn wf(self) -> bool {
        attrs_wf(self.attributes)
    }

    /// The exact encoded byte count: fixed fields plus padded attributes.
    pub open spec fn size(self) -> int {
        8 + attrs_size(self.attributes)
    }

    /// The exact wire encoding: fixed fields in declared order, then the
    /// attributes.
    pub open spec fn encoding(self) -> Seq<u8> {
        seq![self.family, self.prefix_length, self.flags, self.scope] + le32_bytes(self.index)
            + attrs_encoding(self.attributes)
    }
}

impl View for InterfaceAddressMessage {
    type V = AddressFrameView;

    open spec fn view(&self) -> AddressFrameView {
        AddressFrameView {
            family: self.family,
            prefix_length: self.prefix_length,
            flags: self.flags,
            scope: self.scope,
            index: self.index,
            attributes: attrs_views(self.attributes@),
        }
    }
}

/// What decoding a cursor bounded exactly to a frame's content yields: the
/// fixed fields read at the front, then every remaining byte as attributes.
pub open spec fn decode_address_frame(b: Seq<u8>, pos: int) -> Option<AddressFrameView> {
    if pos + 8 <= b.len() {
        match decode_attributes(b, pos + 8) {
            None => None,
            Some(attrs) => Some(
                AddressFrameView {
                    family: b[pos],
                    prefix_length: b[pos + 1],
                    flags: b[pos + 2],
                    scope: b[pos + 3],
                    index: le32_at(b, pos + 4),
                    attributes: attrs,
                },
            ),
        }
    } else {
        None
    }
}

/// Round trip: decoding the encoding of a well-formed frame yields that
/// frame again.
#[verifier::rlimit(100)]
#[verifier::spinoff_prover]
pub proof fn lemma_address_frame_round_trip(f: AddressFrameView)
    requires
        f.wf(),
    ensures
        decode_address_frame(f.encoding(), 0) == Some(f),
{
    let fixed = seq![f.family, f.prefix_length, f.flags, f.scope] + le32_bytes(f.index);
    let attrs_enc = attrs_encoding(f.attributes);
    let c = fixed + attrs_enc;
    crate::netlink_header::lemma_attributes_round_trip(f.attributes);
    crate::netlink_header::lemma_decode_attributes_prefix(fixed, attrs_enc, 0);
    assert(decode_attributes(c, 8) == Some(f.attributes));
    assert(c[0] == f.family);
    assert(c[1] == f.prefix_length);
    assert(c[2] == f.flags);
    assert(c[3] == f.scope);
    assert(c[4] == le32_bytes(f.index)[0]);
    assert(c[5] == le32_bytes(f.index)[1]);
    assert(c[6] == le32_bytes(f.index)[2]);
    assert(c[7] == le32_bytes(f.index)[3]);
    crate::bytes::lemma_le32_at_of_bytes(c, 4, f.index);
    assert(decode_address_frame(c, 0) == Some(f));
    assert(f.encoding() =~= c);
}

impl InterfaceAddressMessage {
    /// Build an address-dump frame from its fixed fields and attributes.
    pub fn build(
        family: u8,
        prefix_length: u8,
        flags: u8,
        scope: u8,
        index: u32,
        attributes: Vec<NetlinkAttribute>,
    ) -> (r: InterfaceAddressMessage)
        ensures
            r@ == (AddressFrameView {
                family,
                prefix_length,
                flags,
                scope,
                index,
                attributes: attrs_views(attributes@),
            }),
    {
        InterfaceAddressMessage { family, prefix_length, flags, scope, index, attributes }
    }

    /// The exact encoded byte count, padding included.
    pub fn size(&self) -> (r: usize)
        requires
            self@.size() <= usize::MAX,
        ensures
            r == self@.size(),
    {
        let ghost views = attrs_views(self.attributes@);
        let mut size: usize = 8;
        let mut i: usize = 0;
        proof {
            assert(views.take(0) =~= Seq::<AttributeView>::empty());
        }
        while i < self.attributes.len()
            invariant
                i <= self.attributes@.len(),
                views == attrs_views(self.attributes@),
                self@.size() <= usize::MAX,
                size == 8 + attrs_size(views.take(i as int)),
            decreases self.attributes@.len() - i,
        {
            proof {
                assert(views.take(i + 1) =~= views.take(i as int).push(views[i as int]));
                lemma_attrs_push(views.take(i as int), views[i as int]);
                lemma_attrs_size_take_le(views, i + 1);
            }
            size = size + self.attributes[i].size();
            i = i + 1;
        }
        proof {
            assert(views.take(views.len() as int) =~= views);
        }
        size
    }

    /// Encode the frame: fixed fields, then each attribute with its padding.
    pub fn serialize(&self) -> (r: Vec<u8>)
        requires
            self@.wf(),
        ensures
            r@ == self@.encoding(),
    {
        let ghost views = attrs_views(self.attributes@);
        let mut buffer: Vec<u8> = Vec::new();
        buffer.push(self.family);
        buffer.push(self.prefix_length);
        buffer.push(self.flags);
        buffer.push(self.scope);
        push_u32_le(&mut buffer, self.index);
        proof {
            assert(views.take(0) =~= Seq::<AttributeView>::empty());
            assert(buffer@ =~= seq![self.family, self.prefix_length, self.flags, self.scope]
                + le32_bytes(self.index) + attrs_encoding(views.take(0)));
        }
        let mut i: usize = 0;
        while i < self.attributes.len()
            invariant
                i <= self.attributes@.len(),
                views == attrs_views(self.attributes@),
                attrs_wf(views),
                buffer@ == seq![self.family, self.prefix_length, self.flags, self.scope]
                    + le32_bytes(self.index) + attrs_encoding(views.take(i as int)),
            decreases self.attributes@.len() - i,
        {
            proof {
                assert(views.take(i + 1) =~= views.take(i as int).push(views[i as int]));
                lemma_attrs_push(views.take(i as int), views[i as int]);
            }
            let ghost before = buffer@;
            let mut piece = self.attributes[i].serialize();
            buffer.append(&mut piece);
            proof {
                assert(buffer@ =~= before + views[i as int].encoding());
                assert(buffer@ =~= seq![self.family, self.prefix_length, self.flags, self.scope]
                    + le32_bytes(self.index) + attrs_encoding(views.take(i + 1)));
            }
            i = i + 1;
        }
        proof {
            assert(views.take(views.len() as int) =~= views);
        }
        buffer
    }

    /// Decode the fixed fields, then every remaining byte of the cursor as
    /// attributes. The cursor must be bounded exactly to the frame content.
    pub fn deserialize(buffer: &mut WalkingVec) -> (r: Result<
        InterfaceAddressMessage,
        NetlinkError,
    >)
        requires
            old(buffer).wf(),
        ensures
            final(buffer).wf(),
            final(buffer).buffer@ == old(buffer).buffer@,
            match r {
                Ok(frame) => {
                    &&& decode_address_frame(old(buffer).buffer@, old(buffer).position as int)
                        == Some(frame@)
                    &&& final(buffer).position == old(buffer).buffer@.len()
                },
                Err(e) => {
                    &&& e == NetlinkError::MalformedMessage
                    &&& decode_address_frame(old(buffer).buffer@, old(buffer).position as int)
                        is None
                },
            },
    {
        let buffer_len = buffer.buffer.len();
        if buffer_len - buffer.position < 8 {
            return Err(NetlinkError::MalformedMessage);
        }
        let family = take_u8(buffer);
        let prefix_length = take_u8(buffer);
        let flags = take_u8(buffer);
        let scope = take_u8(buffer);
        let index = take_u32_le(buffer);
        match parse_attributes(buffer) {
            Ok(attributes) => Ok(
                InterfaceAddressMessage {
                    family,
                    prefix_length,
                    flags,
                    scope,
                    index,
                    attributes,
                },
            ),
            Err(e) => Err(e),
        }
    }
}

} // verus!
