//! Raw integer codecs: syncsafe integers and plain big-endian reads.
//!
//! A syncsafe integer stores a 28-bit value in four bytes, using only the
//! low seven bits of each byte, so that no encoded size can be mistaken
//! for an MPEG synchronization marker.

use crate::error::{ParseError, ParseResult};
use vstd::prelude::*;

verus! {

/// The largest value a syncsafe integer can carry: `2^28 - 1`.
pub const SYNCSAFE_MAX: u32 = 0x0FFFFFFF;

/// The 16-bit big-endian value of two bytes.
pub open spec fn spec_be_u16(hi: u8, lo: u8) -> int {
    (hi as int) * 0x100 + (lo as int)
}

/// The 24-bit big-endian value of three bytes.
pub open spec fn spec_be_u24(b0: u8, b1: u8, b2: u8) -> int {
    (b0 as int) * 0x10000 + (b1 as int) * 0x100 + (b2 as int)
}

/// The 32-bit big-endian value of four bytes.
pub open spec fn spec_be_u32(b0: u8, b1: u8, b2: u8, b3: u8) -> int {
    (b0 as int) * 0x1000000 + (b1 as int) * 0x10000 + (b2 as int) * 0x100 + (b3 as int)
}

/// The 28-bit value carried by four syncsafe bytes: the low seven bits of
/// each byte, most significant first.
pub open spec fn spec_syncsafe_combine(b0: u8, b1: u8, b2: u8, b3: u8) -> u32 {
    (((b0 & 0x7f) as u32) << 21) | (((b1 & 0x7f) as u32) << 14) | (((b2 & 0x7f) as u32) << 7) | ((
    b3 & 0x7f) as u32)
}

/// The four syncsafe bytes that encode `x`, most significant seven bits first.
pub open spec fn spec_syncsafe_encode(x: u32) -> Seq<u8> {
    seq![
        ((x >> 21) & 0x7f) as u8,
        ((x >> 14) & 0x7f) as u8,
        ((x >> 7) & 0x7f) as u8,
        (x & 0x7f) as u8,
    ]
}

/// Whether bit `pos` of `byte` is set, counting the most significant bit
/// as position zero.
pub open spec fn spec_bit_at(pos: u8, byte: u8) -> bool {
    (byte >> ((7 - pos) as u8)) & 1 == 1
}

/// Reads a 16-bit big-endian integer from the first two bytes.
pub fn to_u16(data: &[u8]) -> (r: u16)
    requires
        data@.len() >= 2,
    ensures
        r as int == spec_be_u16(data@[0], data@[1]),
{
    (data[0] as u16) * 0x100 + (data[1] as u16)
}

/// Reads a 24-bit big-endian integer from the first three bytes.
pub fn to_u24(data: &[u8]) -> (r: u32)
    requires
        data@.len() >= 3,
    ensures
        r as int == spec_be_u24(data@[0], data@[1], data@[2]),
{
    (data[0] as u32) * 0x10000 + (data[1] as u32) * 0x100 + (data[2] as u32)
}

/// Reads a 32-bit big-endian integer from the first four bytes.
pub fn to_u32(data: &[u8]) -> (r: u32)
    requires
        data@.len() >= 4,
    ensures
        r as int == spec_be_u32(data@[0], data@[1], data@[2], data@[3]),
{
    (data[0] as u32) * 0x1000000 + (data[1] as u32) * 0x10000 + (data[2] as u32) * 0x100 + (
    data[3] as u32)
}

/// The two big-endian bytes of a 16-bit integer.
pub open spec fn spec_render_u16(x: u16) -> Seq<u8> {
    seq![(x >> 8) as u8, (x & 0xff) as u8]
}

/// The four big-endian bytes of a 32-bit integer.
pub open spec fn spec_render_u32(x: u32) -> Seq<u8> {
    seq![(x >> 24) as u8, ((x >> 16) & 0xff) as u8, ((x >> 8) & 0xff) as u8, (x & 0xff) as u8]
}

/// Renders a 16-bit integer as two big-endian bytes.
pub fn render_u16(x: u16) -> (r: Vec<u8>)
    ensures
        r@ == spec_render_u16(x),
        r@.len() == 2,
        spec_be_u16(r@[0], r@[1]) == x as int,
{
    let mut out: Vec<u8> = Vec::new();
    out.push((x >> 8) as u8);
    out.push((x & 0xff) as u8);
    assert(spec_be_u16((x >> 8) as u8, (x & 0xff) as u8) == x as int) by (bit_vector);
    assert(out@ =~= spec_render_u16(x));
    out
}

/// Renders a 32-bit integer as four big-endian bytes.
pub fn render_u32(x: u32) -> (r: Vec<u8>)
    ensures
        r@ == spec_render_u32(x),
        r@.len() == 4,
        spec_be_u32(r@[0], r@[1], r@[2], r@[3]) == x as int,
{
    let mut out: Vec<u8> = Vec::new();
    out.push((x >> 24) as u8);
    out.push(((x >> 16) & 0xff) as u8);
    out.push(((x >> 8) & 0xff) as u8);
    out.push((x & 0xff) as u8);
    assert(spec_be_u32(
        (x >> 24) as u8,
        ((x >> 16) & 0xff) as u8,
        ((x >> 8) & 0xff) as u8,
        (x & 0xff) as u8,
    ) == x as int) by (bit_vector);
    assert(out@ =~= spec_render_u32(x));
    out
}

/// Decodes a syncsafe integer from the first four bytes. Fails with
/// `MalformedData` exactly when some byte has its reserved high bit set.
pub fn syncsafe_decode(data: &[u8]) -> (r: ParseResult<u32>)
    requires
        data@.len() >= 4,
    ensures
        r is Ok <==> (data@[0] < 0x80 && data@[1] < 0x80 && data@[2] < 0x80 && data@[3] < 0x80),
        r matches Ok(v) ==> v == spec_syncsafe_combine(data@[0], data@[1], data@[2], data@[3])
            && v <= SYNCSAFE_MAX,
        r matches Err(e) ==> e == ParseError::MalformedData,
{
    let b0 = data[0];
    let b1 = data[1];
    let b2 = data[2];
    let b3 = data[3];
    if b0 >= 0x80 || b1 >= 0x80 || b2 >= 0x80 || b3 >= 0x80 {
        return Err(ParseError::MalformedData);
    }
    let v = ((b0 as u32) << 21) | ((b1 as u32) << 14) | ((b2 as u32) << 7) | (b3 as u32);
    assert(b0 < 0x80 && b1 < 0x80 && b2 < 0x80 && b3 < 0x80 ==> ((b0 as u32) << 21) | ((b1
        as u32) << 14) | ((b2 as u32) << 7) | (b3 as u32) == spec_syncsafe_combine(b0, b1, b2, b3)
        && spec_syncsafe_combine(b0, b1, b2, b3) <= 0x0FFFFFFF) by (bit_vector);
    Ok(v)
}

/// Encodes a value below `2^28` as four syncsafe bytes.
pub fn syncsafe_encode(x: u32) -> (r: Vec<u8>)
    requires
        x <= SYNCSAFE_MAX,
    ensures
        r@ == spec_syncsafe_encode(x),
        r@.len() == 4,
{
    let mut out: Vec<u8> = Vec::new();
    out.push(((x >> 21) & 0x7f) as u8);
    out.push(((x >> 14) & 0x7f) as u8);
    out.push(((x >> 7) & 0x7f) as u8);
    out.push((x & 0x7f) as u8);
    assert(out@ =~= spec_syncsafe_encode(x));
    out
}

/// Whether bit `pos` of `byte` is set, counting from the most significant bit.
pub fn bit_at(pos: u8, byte: u8) -> (r: bool)
    requires
        pos <= 7,
    ensures
        r == spec_bit_at(pos, byte),
{
    (byte >> (7 - pos)) & 1 == 1
}

/// Law: a syncsafe encoding round-trips. For every `x` below `2^28`, the
/// four bytes of `spec_syncsafe_encode(x)` all have a clear high bit, and
/// combining them restores `x`.
pub proof fn lemma_syncsafe_round_trip(x: u32)
    requires
        x <= SYNCSAFE_MAX,
    ensures
        spec_syncsafe_encode(x).len() == 4,
        forall|i: int| 0 <= i < 4 ==> spec_syncsafe_encode(x)[i] < 0x80,
        spec_syncsafe_combine(
            spec_syncsafe_encode(x)[0],
            spec_syncsafe_encode(x)[1],
            spec_syncsafe_encode(x)[2],
            spec_syncsafe_encode(x)[3],
        ) == x,
{
    let b0 = ((x >> 21) & 0x7f) as u8;
    let b1 = ((x >> 14) & 0x7f) as u8;
    let b2 = ((x >> 7) & 0x7f) as u8;
    let b3 = (x & 0x7f) as u8;
    assert(x <= 0x0FFFFFFF ==> b0 < 0x80 && b1 < 0x80 && b2 < 0x80 && b3 < 0x80
        && spec_syncsafe_combine(b0, b1, b2, b3) == x) by (bit_vector)
        requires
            b0 == ((x >> 21) & 0x7f) as u8,
            b1 == ((x >> 14) & 0x7f) as u8,
            b2 == ((x >> 7) & 0x7f) as u8,
            b3 == (x & 0x7f) as u8,
    ;
    assert forall|i: int| 0 <= i < 4 implies spec_syncsafe_encode(x)[i] < 0x80 by {
        assert(spec_syncsafe_encode(x)[0] == b0);
        assert(spec_syncsafe_encode(x)[1] == b1);
        assert(spec_syncsafe_encode(x)[2] == b2);
        assert(spec_syncsafe_encode(x)[3] == b3);
    }
}

} // verus!
