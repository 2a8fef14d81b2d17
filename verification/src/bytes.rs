use vstd::prelude::*;
use crate::walking_vec::WalkingVec;

verus! {

/// The value of the two bytes at `i` read as a little-endian unsigned 16-bit
/// integer.
pub open spec fn le16_at(b: Seq<u8>, i: int) -> u16
    recommends
        0 <= i,
        i + 2 <= b.len(),
{
    (b[i] + b[i + 1] * 0x100) as u16
}

/// The value of the four bytes at `i` read as a little-endian unsigned 32-bit
/// integer.
pub open spec fn le32_at(b: Seq<u8>, i: int) -> u32
    recommends
        0 <= i,
        i + 4 <= b.len(),
{
    (b[i] + b[i + 1] * 0x100 + b[i + 2] * 0x10000 + b[i + 3] * 0x1000000) as u32
}

/// The little-endian encoding of an unsigned 16-bit integer.
pub open spec fn le16_bytes(n: u16) -> Seq<u8> {
    seq![(n % 0x100) as u8, (n / 0x100) as u8]
}

/// The little-endian encoding of an unsigned 32-bit integer.
pub open spec fn le32_bytes(n: u32) -> Seq<u8> {
    seq![
        (n % 0x100) as u8,
        ((n / 0x100) % 0x100) as u8,
        ((n / 0x10000) % 0x100) as u8,
        ((n / 0x1000000) % 0x100) as u8,
    ]
}

/// The signed reading of an unsigned 32-bit value, as two's complement.
pub open spec fn signed32(n: u32) -> int {
    if n < 0x8000_0000 {
        n as int
    } else {
        n - 0x1_0000_0000
    }
}

/// The unsigned 32-bit representation of a signed value, as two's
/// complement.
pub open spec fn unsigned32(n: i32) -> u32 {
    if n >= 0 {
        n as u32
    } else {
        (n + 0x1_0000_0000) as u32
    }
}

/// Reading back four little-endian bytes gives the encoded value.
pub proof fn lemma_le32_round_trip(n: u32)
    ensures
        le32_at(le32_bytes(n), 0) == n,
{
}

/// Reading the unsigned representation back as two's complement gives the
/// signed value again.
pub proof fn lemma_signed32_round_trip(n: i32)
    ensures
        signed32(unsigned32(n)) == n,
{
}

/// Four bytes that agree with an encoding read back as the encoded value.
pub proof fn lemma_le32_at_of_bytes(b: Seq<u8>, i: int, n: u32)
    requires
        0 <= i,
        i + 4 <= b.len(),
        b[i] == le32_bytes(n)[0],
        b[i + 1] == le32_bytes(n)[1],
        b[i + 2] == le32_bytes(n)[2],
        b[i + 3] == le32_bytes(n)[3],
    ensures
        le32_at(b, i) == n,
{
    lemma_le32_round_trip(n);
}

/// Append the little-endian encoding of a 16-bit value.
pub fn push_u16_le(buffer: &mut Vec<u8>, n: u16)
    ensures
        final(buffer)@ == old(buffer)@ + le16_bytes(n),
{
    buffer.push((n % 0x100) as u8);
    buffer.push((n / 0x100) as u8);
}

/// Append the little-endian encoding of a 32-bit value.
pub fn push_u32_le(buffer: &mut Vec<u8>, n: u32)
    ensures
        final(buffer)@ == old(buffer)@ + le32_bytes(n),
{
    buffer.push((n % 0x100) as u8);
    buffer.push(((n / 0x100) % 0x100) as u8);
    buffer.push(((n / 0x10000) % 0x100) as u8);
    buffer.push(((n / 0x1000000) % 0x100) as u8);
}

/// Read one byte from the cursor.
pub fn take_u8(buffer: &mut WalkingVec) -> (r: u8)
    requires
        old(buffer).wf(),
        old(buffer).position + 1 <= old(buffer).buffer@.len(),
    ensures
        final(buffer).wf(),
        final(buffer).buffer@ == old(buffer).buffer@,
        final(buffer).position == old(buffer).position + 1,
        r == old(buffer).buffer@[old(buffer).position as int],
{
    let bytes = buffer.walk(1);
    bytes[0]
}

/// Read a little-endian 16-bit value from the cursor.
pub fn take_u16_le(buffer: &mut WalkingVec) -> (r: u16)
    requires
        old(buffer).wf(),
        old(buffer).position + 2 <= old(buffer).buffer@.len(),
    ensures
        final(buffer).wf(),
        final(buffer).buffer@ == old(buffer).buffer@,
        final(buffer).position == old(buffer).position + 2,
        r == le16_at(old(buffer).buffer@, old(buffer).position as int),
{
    let bytes = buffer.walk(2);
    (bytes[0] as u16) + (bytes[1] as u16) * 0x100
}

/// Read a little-endian 32-bit value from the cursor.
pub fn take_u32_le(buffer: &mut WalkingVec) -> (r: u32)
    requires
        old(buffer).wf(),
        old(buffer).position + 4 <= old(buffer).buffer@.len(),
    ensures
        final(buffer).wf(),
        final(buffer).buffer@ == old(buffer).buffer@,
        final(buffer).position == old(buffer).position + 4,
        r == le32_at(old(buffer).buffer@, old(buffer).position as int),
{
    let bytes = buffer.walk(4);
    (bytes[0] as u32) + (bytes[1] as u32) * 0x100 + (bytes[2] as u32) * 0x10000 + (bytes[3]
        as u32) * 0x1000000
}

/// Read a little-endian 32-bit value from the start of a byte vector.
pub fn le32_of_vec(data: &Vec<u8>) -> (r: u32)
    requires
        data@.len() >= 4,
    ensures
        r == le32_at(data@, 0),
{
    (data[0] as u32) + (data[1] as u32) * 0x100 + (data[2] as u32) * 0x10000 + (data[3]
        as u32) * 0x1000000
}

/// Read a little-endian signed 32-bit value from the cursor.
pub fn take_i32_le(buffer: &mut WalkingVec) -> (r: i32)
    requires
        old(buffer).wf(),
        old(buffer).position + 4 <= old(buffer).buffer@.len(),
    ensures
        final(buffer).wf(),
        final(buffer).buffer@ == old(buffer).buffer@,
        final(buffer).position == old(buffer).position + 4,
        r == signed32(le32_at(old(buffer).buffer@, old(buffer).position as int)),
{
    let raw = take_u32_le(buffer);
    if raw < 0x8000_0000 {
        raw as i32
    } else {
        assert(!raw == 0xffff_ffffu32 - raw) by (bit_vector);
        let flipped: u32 = !raw;
        -(flipped as i32) - 1
    }
}

} // verus!
