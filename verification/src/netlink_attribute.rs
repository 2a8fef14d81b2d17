use vstd::prelude::*;
use crate::bytes::{le16_at, le16_bytes, push_u16_le, take_u16_le};
use crate::error::NetlinkError;
use crate::walking_vec::WalkingVec;

verus! {

/// `n` rounded up to the next multiple of four.
pub open spec fn align4(n: int) -> int {
    ((n + 3) / 4) * 4
}

/// Alignment to four bytes is idempotent, never shrinks, and adds fewer than
/// four bytes.
pub proof fn lemma_align4_properties(n: int)
    requires
        0 <= n,
    ensures
        align4(align4(n)) == align4(n),
        align4(n) >= n,
        align4(n) - n < 4,
        align4(n) % 4 == 0,
{
}

/// Round a message length up to the protocol's 4-byte alignment.
pub fn align_message(length: usize) -> (r: usize)
    requires
        length + 3 <= usize::MAX,
    ensures
        r == align4(length as int),
{
    (length + 3) / 4 * 4
}

/// A sequence of `n` zero bytes (wire padding).
pub open spec fn zero_bytes(n: int) -> Seq<u8> {
    Seq::new(n as nat, |i: int| 0u8)
}

/// A single tagged-length-value attribute.
///
/// `length` is the unpadded encoded size: the 4-byte attribute header plus
/// the raw data length. On the wire the data is followed by zero bytes up to
/// a multiple of four; those padding bytes are never part of `length` or
/// `data`.
pub struct NetlinkAttribute {
    pub length: u16,
    pub attribute_type: u16,
    pub data: Vec<u8>,
}

/// The mathematical shape of an attribute.
pub struct AttributeView {
    pub length: u16,
    pub attribute_type: u16,
    pub data: Seq<u8>,
}

impl AttributeView {
    /// The length field agrees with the data it describes.
    pub open spec fn wf(self) -> bool {
        self.length == self.data.len() + 4
    }

    /// The encoded size including trailing padding.
    pub open spec fn padded_size(self) -> int {
        align4(self.length as int)
    }

    /// The exact wire encoding: length, type, data, zero padding.
    pub open spec fn encoding(self) -> Seq<u8> {
        le16_bytes(self.length) + le16_bytes(self.attribute_type) + self.data + zero_bytes(
            align4(self.length as int) - self.length,
        )
    }
}

impl View for NetlinkAttribute {
    type V = AttributeView;

    open spec fn view(&self) -> AttributeView {
        AttributeView {
            length: self.length,
            attribute_type: self.attribute_type,
            data: self.data@,
        }
    }
}

/// What decoding one attribute at position `pos` of `b` yields: the
/// attribute and the position after it (past its padding), or nothing when
/// the declared lengths do not fit the buffer.
///
/// Padding after the final attribute of a buffer may be absent; a partial
/// padding overrun is malformed.
pub open spec fn decode_attribute(b: Seq<u8>, pos: int) -> Option<(AttributeView, int)> {
    if pos + 4 <= b.len() {
        let length = le16_at(b, pos);
        let attribute_type = le16_at(b, pos + 2);
        if length < 4 {
            None
        } else if pos + length <= b.len() {
            let attr = AttributeView {
                length,
                attribute_type,
                data: b.subrange(pos + 4, pos + length),
            };
            if pos + length == b.len() {
                Some((attr, b.len() as int))
            } else if pos + align4(length as int) <= b.len() {
                Some((attr, pos + align4(length as int)))
            } else {
                None
            }
        } else {
            None
        }
    } else {
        None
    }
}

/// A decoded attribute is well formed and ends strictly later than it
/// starts, within the buffer.
pub proof fn lemma_decode_attribute_advances(b: Seq<u8>, pos: int)
    requires
        0 <= pos,
        decode_attribute(b, pos) is Some,
    ensures
        decode_attribute(b, pos)->Some_0.0.wf(),
        pos < decode_attribute(b, pos)->Some_0.1 <= b.len(),
{
    lemma_align4_properties(decode_attribute(b, pos)->Some_0.0.length as int);
}

/// All attributes of a sequence are well formed.
pub open spec fn attrs_wf(attrs: Seq<AttributeView>) -> bool {
    forall|i: int| 0 <= i < attrs.len() ==> (#[trigger] attrs[i]).wf()
}

/// The concatenated wire encoding of a sequence of attributes.
pub open spec fn attrs_encoding(attrs: Seq<AttributeView>) -> Seq<u8>
    decreases attrs.len(),
{
    if attrs.len() == 0 {
        Seq::empty()
    } else {
        attrs[0].encoding() + attrs_encoding(attrs.drop_first())
    }
}

/// The summed padded size of a sequence of attributes.
pub open spec fn attrs_size(attrs: Seq<AttributeView>) -> int
    decreases attrs.len(),
{
    if attrs.len() == 0 {
        0
    } else {
        attrs[0].padded_size() + attrs_size(attrs.drop_first())
    }
}

/// Appending one attribute extends the concatenated encoding and the summed
/// size at the back.
pub proof fn lemma_attrs_push(attrs: Seq<AttributeView>, a: AttributeView)
    ensures
        attrs_encoding(attrs.push(a)) == attrs_encoding(attrs) + a.encoding(),
        attrs_size(attrs.push(a)) == attrs_size(attrs) + a.padded_size(),
    decreases attrs.len(),
{
    if attrs.len() == 0 {
        assert(attrs.push(a).drop_first() =~= Seq::<AttributeView>::empty());
        assert(attrs.push(a)[0] == a);
        assert(a.encoding() + attrs_encoding(Seq::<AttributeView>::empty()) =~= a.encoding());
        assert(attrs_encoding(attrs) + a.encoding() =~= a.encoding());
        assert(attrs_size(attrs.push(a)) == a.padded_size() + attrs_size(
            attrs.push(a).drop_first(),
        ));
        assert(attrs_size(attrs.push(a).drop_first()) == 0);
    } else {
        assert(attrs.push(a).drop_first() =~= attrs.drop_first().push(a));
        lemma_attrs_push(attrs.drop_first(), a);
        assert(attrs.push(a)[0] == attrs[0]);
        assert(attrs_size(attrs.push(a)) == attrs[0].padded_size() + attrs_size(
            attrs.drop_first().push(a),
        ));
        assert(attrs[0].encoding() + (attrs_encoding(attrs.drop_first()) + a.encoding())
            =~= (attrs[0].encoding() + attrs_encoding(attrs.drop_first())) + a.encoding());
    }
}

/// The size of a prefix never exceeds the size of the whole sequence.
pub proof fn lemma_attrs_size_take_le(attrs: Seq<AttributeView>, i: int)
    requires
        0 <= i <= attrs.len(),
    ensures
        attrs_size(attrs.take(i)) <= attrs_size(attrs),
    decreases attrs.len() - i,
{
    if i < attrs.len() {
        assert(attrs.take(i + 1) =~= attrs.take(i).push(attrs[i]));
        lemma_attrs_push(attrs.take(i), attrs[i]);
        lemma_align4_properties(attrs[i].length as int);
        lemma_attrs_size_take_le(attrs, i + 1);
        assert(attrs.take(attrs.len() as int) =~= attrs);
    } else {
        assert(attrs.take(i) =~= attrs);
    }
}

/// Round trip: decoding the encoding of a well-formed attribute yields that
/// attribute again, with the position moved past the whole padded encoding.
/// The padding bytes are no part of the decoded value.
pub proof fn lemma_attribute_round_trip(a: AttributeView)
    requires
        a.wf(),
    ensures
        decode_attribute(a.encoding(), 0) == Some((a, a.encoding().len() as int)),
{
    lemma_align4_properties(a.length as int);
    let e = a.encoding();
    assert(e.len() == align4(a.length as int));
    assert(le16_at(e, 0) == a.length);
    assert(le16_at(e, 2) == a.attribute_type);
    assert(e.subrange(4, a.length as int) =~= a.data);
}

/// The rest of a well-formed attribute sequence is well formed too.
pub proof fn lemma_attrs_wf_drop_first(attrs: Seq<AttributeView>)
    requires
        attrs_wf(attrs),
        attrs.len() > 0,
    ensures
        attrs_wf(attrs.drop_first()),
{
    assert forall|i: int| 0 <= i < attrs.drop_first().len() implies (#[trigger] attrs.drop_first()[
        i
    ]).wf() by {
        assert(attrs.drop_first()[i] == attrs[i + 1]);
    }
}

/// For well-formed attributes the concatenated encoding is exactly as long
/// as the summed padded size says.
pub proof fn lemma_attrs_encoding_len(attrs: Seq<AttributeView>)
    requires
        attrs_wf(attrs),
    ensures
        attrs_encoding(attrs).len() == attrs_size(attrs),
    decreases attrs.len(),
{
    if attrs.len() > 0 {
        lemma_align4_properties(attrs[0].length as int);
        lemma_attrs_wf_drop_first(attrs);
        lemma_attrs_encoding_len(attrs.drop_first());
    }
}

/// Decoding one attribute reads only bytes from its position on, so a
/// prefix in front moves the result along unchanged.
pub proof fn lemma_decode_attribute_prefix(prefix: Seq<u8>, b: Seq<u8>, pos: int)
    requires
        0 <= pos <= b.len(),
    ensures
        decode_attribute(prefix + b, prefix.len() + pos) == match decode_attribute(b, pos) {
            None => None::<(AttributeView, int)>,
            Some((a, end)) => Some((a, prefix.len() + end)),
        },
{
    let c = prefix + b;
    let cpos = prefix.len() + pos;
    if pos + 4 <= b.len() {
        assert(c[cpos] == b[pos]);
        assert(c[cpos + 1] == b[pos + 1]);
        assert(c[cpos + 2] == b[pos + 2]);
        assert(c[cpos + 3] == b[pos + 3]);
        let length = le16_at(b, pos);
        if length >= 4 && pos + length <= b.len() {
            assert(c.subrange(cpos + 4, cpos + length) =~= b.subrange(pos + 4, pos + length));
        }
    }
}

/// Decoding the encoding of a well-formed attribute, with anything after
/// it, yields that attribute and steps exactly past its padded encoding.
pub proof fn lemma_attribute_round_trip_with_suffix(a: AttributeView, suffix: Seq<u8>)
    requires
        a.wf(),
    ensures
        decode_attribute(a.encoding() + suffix, 0) == Some((a, a.encoding().len() as int)),
{
    lemma_align4_properties(a.length as int);
    let e = a.encoding() + suffix;
    assert(a.encoding().len() == align4(a.length as int));
    assert(le16_at(e, 0) == a.length);
    assert(le16_at(e, 2) == a.attribute_type);
    assert(e.subrange(4, a.length as int) =~= a.data);
}

impl NetlinkAttribute {
    /// Build an attribute over raw data; the length field is the data length
    /// plus the 4-byte attribute header.
    pub fn build(attribute_type: u16, data: Vec<u8>) -> (r: NetlinkAttribute)
        requires
            data@.len() + 4 <= u16::MAX,
        ensures
            r@.wf(),
            r@.attribute_type == attribute_type,
            r@.data == data@,
    {
        let length = (data.len() + 4) as u16;
        NetlinkAttribute { length, attribute_type, data }
    }

    /// The encoded size including trailing padding.
    pub fn size(&self) -> (r: usize)
        ensures
            r == self@.padded_size(),
    {
        align_message(self.length as usize)
    }

    /// Encode the attribute: length and type little-endian, then the data,
    /// then zero padding up to a multiple of four bytes.
    pub fn serialize(&self) -> (r: Vec<u8>)
        requires
            self@.wf(),
        ensures
            r@ == self@.encoding(),
            r@.len() == self@.padded_size(),
    {
        proof {
            lemma_align4_properties(self.length as int);
        }
        let mut buffer: Vec<u8> = Vec::new();
        push_u16_le(&mut buffer, self.length);
        push_u16_le(&mut buffer, self.attribute_type);
        buffer.extend_from_slice(self.data.as_slice());
        let target = self.size();
        while buffer.len() < target
            invariant
                self@.wf(),
                target == self@.padded_size(),
                buffer@.len() <= target,
                buffer@ == le16_bytes(self.length) + le16_bytes(self.attribute_type) + self.data@
                    + zero_bytes(buffer@.len() - self.length),
            decreases target - buffer.len(),
        {
            buffer.push(0);
            assert(buffer@ == le16_bytes(self.length) + le16_bytes(self.attribute_type)
                + self.data@ + zero_bytes(buffer@.len() - self.length));
        }
        assert(buffer@ == self@.encoding());
        buffer
    }

    /// Decode one attribute from the cursor and step past its padding.
    ///
    /// A length field under 4, a data length overrunning the buffer, or a
    /// partial padding overrun is reported as `MalformedMessage` instead of
    /// aborting.
    pub fn deserialize(buffer: &mut WalkingVec) -> (r: Result<NetlinkAttribute, NetlinkError>)
        requires
            old(buffer).wf(),
        ensures
            final(buffer).wf(),
            final(buffer).buffer@ == old(buffer).buffer@,
            match r {
                Ok(attr) => {
                    &&& attr@.wf()
                    &&& decode_attribute(old(buffer).buffer@, old(buffer).position as int)
                        == Some((attr@, final(buffer).position as int))
                },
                Err(e) => {
                    &&& e == NetlinkError::MalformedMessage
                    &&& decode_attribute(old(buffer).buffer@, old(buffer).position as int)
                        is None
                },
            },
    {
        let buffer_len = buffer.buffer.len();
        if buffer_len - buffer.position < 4 {
            return Err(NetlinkError::MalformedMessage);
        }
        let length = take_u16_le(buffer);
        let attribute_type = take_u16_le(buffer);
        if length < 4 {
            return Err(NetlinkError::MalformedMessage);
        }
        let data_len = length as usize - 4;
        if data_len > buffer_len - buffer.position {
            return Err(NetlinkError::MalformedMessage);
        }
        let data = buffer.walk(data_len);
        let ghost pos0 = old(buffer).position as int;
        let ghost b = old(buffer).buffer@;
        proof {
            lemma_align4_properties(length as int);
            assert(data@ =~= b.subrange(pos0 + 4, pos0 + length));
        }
        let padded = align_message(length as usize);
        let padding = padded - length as usize;
        if buffer.reached_end() {
            let attr = NetlinkAttribute { length, attribute_type, data };
            proof {
                assert(decode_attribute(b, pos0) == Some((attr@, buffer.position as int)));
            }
            Ok(attr)
        } else if padding <= buffer_len - buffer.position {
            let _ = buffer.walk(padding);
            let attr = NetlinkAttribute { length, attribute_type, data };
            proof {
                assert(decode_attribute(b, pos0) == Some((attr@, buffer.position as int)));
            }
            Ok(attr)
        } else {
            Err(NetlinkError::MalformedMessage)
        }
    }
}

} // verus!
