use vstd::prelude::*;
use crate::bytes::{le16_at, le16_bytes, push_u16_le, take_u16_le, take_u8};
use crate::error::NetlinkError;
use crate::netlink_attribute::{
    attrs_encoding, attrs_size, attrs_wf, lemma_attrs_push, lemma_attrs_size_take_le,
    AttributeView, NetlinkAttribute,
};
use crate::netlink_header::{attrs_views, decode_attributes, parse_attributes};
use crate::walking_vec::WalkingVec;

verus! {

/// The payload shape of a generic-netlink command or reply: command byte,
/// version byte, a reserved field, and a flat attribute list.
pub struct GenericNetlinkMessageHeader {
    pub cmd: u8,
    pub version: u8,
    pub reserved: u16,
    pub attributes: Vec<NetlinkAttribute>,
}

/// The mathematical shape of a generic-netlink frame.
pub struct GenericFrameView {
    pub cmd: u8,
    pub version: u8,
    pub reserved: u16,
    pub attributes: Seq<AttributeView>,
}

impl GenericFrameView {
    /// Every attribute carries a length field that agrees with its data.
    pub open spec fn wf(self) -> bool {
        attrs_wf(self.attributes)
    }

    /// The exact encoded byte count: fixed fields plus padded attributes.
    pub open spec fn size(self) -> int {
        4 + attrs_size(self.attributes)
    }

    /// The exact wire encoding: fixed fields in declared order, then the
    /// attributes.
    pub open spec fn encoding(self) -> Seq<u8> {
        seq![self.cmd, self.version] + le16_bytes(self.reserved) + attrs_encoding(self.attributes)
    }
}

impl View for GenericNetlinkMessageHeader {
    type V = GenericFrameView;

    open spec fn view(&self) -> GenericFrameView {
        GenericFrameView {
            cmd: self.cmd,
            version: self.version,
            reserved: self.reserved,
            attributes: attrs_views(self.attributes@),
        }
    }
}

/// What decoding a cursor bounded exactly to a frame's content yields: the
/// fixed fields read at the front, then every remaining byte as attributes.
pub open spec fn decode_generic_frame(b: Seq<u8>, pos: int) -> Option<GenericFrameView> {
    if pos + 4 <= b.len() {
        match decode_attributes(b, pos + 4) {
            None => None,
            Some(attrs) => Some(
                GenericFrameView {
                    cmd: b[pos],
                    version: b[pos + 1],
                    reserved: le16_at(b, pos + 2),
                    attributes: attrs,
                },
            ),
        }
    } else {
        None
    }
}

/// Round trip: decoding the encoding of a well-formed frame yields that
/// frame again.
pub proof fn lemma_generic_frame_round_trip(f: GenericFrameView)
    requires
        f.wf(),
    ensures
        decode_generic_frame(f.encoding(), 0) == Some(f),
{
    let fixed = seq![f.cmd, f.version] + le16_bytes(f.reserved);
    let attrs_enc = attrs_encoding(f.attributes);
    assert(f.encoding() =~= fixed + attrs_enc);
    crate::netlink_header::lemma_attributes_round_trip(f.attributes);
    crate::netlink_header::lemma_decode_attributes_prefix(fixed, attrs_enc, 0);
    let e = f.encoding();
    assert(e[0] == f.cmd);
    assert(e[1] == f.version);
    assert(le16_at(e, 2) == f.reserved);
}

impl GenericNetlinkMessageHeader {
    /// Build a command frame; the version byte is always 1 and the reserved
    /// field zero.
    pub fn build(cmd: u8, attributes: Vec<NetlinkAttribute>) -> (r: GenericNetlinkMessageHeader)
        ensures
            r@ == (GenericFrameView {
                cmd,
                version: 1,
                reserved: 0,
                attributes: attrs_views(attributes@),
            }),
    {
        GenericNetlinkMessageHeader { cmd, version: 1, reserved: 0, attributes }
    }

    /// The exact encoded byte count, padding included.
    pub fn size(&self) -> (r: usize)
        requires
            self@.size() <= usize::MAX,
        ensures
            r == self@.size(),
    {
        let ghost views = attrs_views(self.attributes@);
        let mut size: usize = 4;
        let mut i: usize = 0;
        proof {
            assert(views.take(0) =~= Seq::<AttributeView>::empty());
        }
        while i < self.attributes.len()
            invariant
                i <= self.attributes@.len(),
                views == attrs_views(self.attributes@),
                self@.size() <= usize::MAX,
                size == 4 + attrs_size(views.take(i as int)),
            decreases self.attributes@.len() - i,
        {
            proof {
                assert(views.take(i + 1) =~= views.take(i as int).push(views[i as int]));
                lemma_attrs_push(views.take(i as int), views[i as int]);
                lemma_attrs_size_take_le(views, i + 1);
            }
            size = size + self.attributes[i].size();
            i = i + 1;
        }
        proof {
            assert(views.take(views.len() as int) =~= views);
        }
        size
    }

    /// Encode the frame: fixed fields, then each attribute with its padding.
    pub fn serialize(&self) -> (r: Vec<u8>)
        requires
            self@.wf(),
        ensures
            r@ == self@.encoding(),
    {
        let ghost views = attrs_views(self.attributes@);
        let mut buffer: Vec<u8> = Vec::new();
        buffer.push(self.cmd);
        buffer.push(self.version);
        push_u16_le(&mut buffer, self.reserved);
        proof {
            assert(views.take(0) =~= Seq::<AttributeView>::empty());
            assert(buffer@ =~= seq![self.cmd, self.version] + le16_bytes(self.reserved)
                + attrs_encoding(views.take(0)));
        }
        let mut i: usize = 0;
        while i < self.attributes.len()
            invariant
                i <= self.attributes@.len(),
                views == attrs_views(self.attributes@),
                attrs_wf(views),
                buffer@ == seq![self.cmd, self.version] + le16_bytes(self.reserved)
                    + attrs_encoding(views.take(i as int)),
            decreases self.attributes@.len() - i,
        {
            proof {
                assert(views.take(i + 1) =~= views.take(i as int).push(views[i as int]));
                lemma_attrs_push(views.take(i as int), views[i as int]);
            }
            let ghost before = buffer@;
            let mut piece = self.attributes[i].serialize();
            buffer.append(&mut piece);
            proof {
                assert(buffer@ =~= before + views[i as int].encoding());
                assert(buffer@ =~= seq![self.cmd, self.version] + le16_bytes(self.reserved)
                    + attrs_encoding(views.take(i + 1)));
            }
            i = i + 1;
        }
        proof {
            assert(views.take(views.len() as int) =~= views);
        }
        buffer
    }

    /// Decode the fixed fields, then every remaining byte of the cursor as
    /// attributes. The cursor must be bounded exactly to the frame content.
    pub fn deserialize(buffer: &mut WalkingVec) -> (r: Result<
        GenericNetlinkMessageHeader,
        NetlinkError,
    >)
        requires
            old(buffer).wf(),
        ensures
            final(buffer).wf(),
            final(buffer).buffer@ == old(buffer).buffer@,
            match r {
                Ok(frame) => {
                    &&& decode_generic_frame(old(buffer).buffer@, old(buffer).position as int)
                        == Some(frame@)
                    &&& final(buffer).position == old(buffer).buffer@.len()
                },
                Err(e) => {
                    &&& e == NetlinkError::MalformedMessage
                    &&& decode_generic_frame(old(buffer).buffer@, old(buffer).position as int)
                        is None
                },
            },
    {
        let buffer_len = buffer.buffer.len();
        if buffer_len - buffer.position < 4 {
            return Err(NetlinkError::MalformedMessage);
        }
        let cmd = take_u8(buffer);
        let version = take_u8(buffer);
        let reserved = take_u16_le(buffer);
        match parse_attributes(buffer) {
            Ok(attributes) => Ok(
                GenericNetlinkMessageHeader { cmd, version, reserved, attributes },
            ),
            Err(e) => Err(e),
        }
    }
}

} // verus!
