//! Big-endian byte helpers shared by the frame codecs.
use vstd::prelude::*;

verus! {

/// Two bytes read as a big-endian 16-bit number.
pub open spec fn spec_be16(hi: u8, lo: u8) -> u16 {
    (hi as nat * 256 + lo as nat) as u16
}

/// Four bytes read as a big-endian 32-bit number.
pub open spec fn spec_be32(a: u8, b: u8, c: u8, d: u8) -> u32 {
    (((a as nat * 256 + b as nat) * 256 + c as nat) * 256 + d as nat) as u32
}

/// Two bytes read as a big-endian 16-bit number.
pub fn be16(hi: u8, lo: u8) -> (r: u16)
    ensures
        r == spec_be16(hi, lo),
        r as nat == hi as nat * 256 + lo as nat,
{
    let r = ((hi as u16) << 8u16) | (lo as u16);
    assert(((hi as u16) << 8u16) | (lo as u16) == (hi as u16) * 256 + (lo as u16)) by (bit_vector);
    r
}

/// Four bytes read as a big-endian 32-bit number.
pub fn be32(a: u8, b: u8, c: u8, d: u8) -> (r: u32)
    ensures
        r == spec_be32(a, b, c, d),
        r as nat == ((a as nat * 256 + b as nat) * 256 + c as nat) * 256 + d as nat,
{
    let r = ((a as u32) << 24u32) | ((b as u32) << 16u32) | ((c as u32) << 8u32) | (d as u32);
    assert(((a as u32) << 24u32) | ((b as u32) << 16u32) | ((c as u32) << 8u32) | (d as u32) == (
    a as u32) * 16777216 + (b as u32) * 65536 + (c as u32) * 256 + (d as u32)) by (bit_vector);
    r
}

/// The high byte of a 16-bit number.
pub open spec fn spec_hi8(x: u16) -> u8 {
    (x / 256) as u8
}

/// The low byte of a 16-bit number.
pub open spec fn spec_lo8(x: u16) -> u8 {
    (x % 256) as u8
}

/// The two big-endian bytes of a 16-bit number.
pub fn split16(x: u16) -> (r: (u8, u8))
    ensures
        r.0 == spec_hi8(x),
        r.1 == spec_lo8(x),
        spec_be16(r.0, r.1) == x,
{
    let hi = (x >> 8u16) as u8;
    let lo = (x & 0xFFu16) as u8;
    assert((x >> 8u16) as u8 == (x / 256) as u8) by (bit_vector);
    assert((x & 0xFFu16) as u8 == (x % 256) as u8) by (bit_vector);
    (hi, lo)
}

/// The 32-bit value read from bytes 2..6 of an ICMP header: the three
/// middle bytes OR-ed together and shifted by 8, OR-ed with the last byte.
pub open spec fn spec_or_shift_word(b2: u8, b3: u8, b4: u8, b5: u8) -> u32 {
    ((b2 as u32) << 8u32) | ((b3 as u32) << 8u32) | ((b4 as u32) << 8u32) | (b5 as u32)
}

/// The 32-bit value read from bytes 2..6 of an ICMP header.
pub fn or_shift_word(b2: u8, b3: u8, b4: u8, b5: u8) -> (r: u32)
    ensures
        r == spec_or_shift_word(b2, b3, b4, b5),
{
    ((b2 as u32) << 8u32) | ((b3 as u32) << 8u32) | ((b4 as u32) << 8u32) | (b5 as u32)
}

/// The four big-endian bytes of a 32-bit number.
pub open spec fn spec_be32_bytes(x: u32) -> Seq<u8> {
    seq![(x / 16777216) as u8, ((x / 65536) % 256) as u8, ((x / 256) % 256) as u8, (x % 256) as u8]
}

/// The four big-endian bytes of a 32-bit number.
pub fn split32(x: u32) -> (r: [u8; 4])
    ensures
        r@ == spec_be32_bytes(x),
{
    let a = (x >> 24u32) as u8;
    let b = ((x >> 16u32) & 0xFFu32) as u8;
    let c = ((x >> 8u32) & 0xFFu32) as u8;
    let d = (x & 0xFFu32) as u8;
    assert((x >> 24u32) as u8 == (x / 16777216) as u8) by (bit_vector);
    assert(((x >> 16u32) & 0xFFu32) as u8 == ((x / 65536) % 256) as u8) by (bit_vector);
    assert(((x >> 8u32) & 0xFFu32) as u8 == ((x / 256) % 256) as u8) by (bit_vector);
    assert((x & 0xFFu32) as u8 == (x % 256) as u8) by (bit_vector);
    let r = [a, b, c, d];
    assert(r@ =~= spec_be32_bytes(x));
    r
}

/// Widen a 16-bit number to a length.
pub fn usize_of16(x: u16) -> (r: usize)
    ensures
        r == x,
{
    x as usize
}

/// Widen a byte to a length.
pub fn usize_of(b: u8) -> (r: usize)
    ensures
        r == b,
{
    b as usize
}

/// Widen a position to a mathematical integer.
pub open spec fn at(i: usize) -> int {
    i as int
}

} // verus!
