//! The Internet checksum (RFC 1071) and bit-field helpers of the IPv4 header.
use vstd::prelude::*;
use crate::bytes::{spec_be16, spec_hi8, spec_lo8, be16};

verus! {

/// One's-complement style running sum: each big-endian 16-bit word of `d`
/// is added to `acc` with 32-bit wrap-around; a final odd byte counts as the
/// high byte of a word whose low byte is zero.
pub open spec fn sum_words(acc: u32, d: Seq<u8>) -> u32
    decreases d.len(),
{
    if d.len() >= 2 {
        sum_words(acc.wrapping_add(spec_be16(d[0], d[1]) as u32), d.skip(2))
    } else if d.len() == 1 {
        acc.wrapping_add(((d[0] as u32) * 256) as u32)
    } else {
        acc
    }
}

/// Fold the carries above bit 16 back into the low 16 bits until none remain.
pub open spec fn fold_carries(s: u32) -> u32
    decreases s,
{
    if s >> 16u32 == 0 {
        s
    } else {
        proof {
            assert(s >> 16u32 != 0 ==> (s & 0xFFFFu32) + (s >> 16u32) < s) by (bit_vector);
        }
        fold_carries(((s & 0xFFFFu32) + (s >> 16u32)) as u32)
    }
}

/// The Internet checksum of `d`: the complement of its folded word sum.
pub open spec fn spec_checksum(d: Seq<u8>) -> u16 {
    !(fold_carries(sum_words(0, d)) as u16)
}

/// The Internet checksum of a byte string.
pub fn checksum(data: &[u8]) -> (r: u16)
    ensures
        r == spec_checksum(data@),
{
    let mut sum: u32 = 0;
    let mut i: usize = 0;
    assert(data@.skip(0) =~= data@);
    while data.len() - i >= 2
        invariant
            i <= data@.len(),
            sum_words(sum, data@.skip(i as int)) == sum_words(0, data@),
        decreases data@.len() - i,
    {
        let word = be16(data[i], data[i + 1]) as u32;
        proof {
            let d = data@.skip(i as int);
            assert(d.skip(2) =~= data@.skip(i + 2));
        }
        sum = sum.wrapping_add(word);
        i = i + 2;
    }
    if i < data.len() {
        let b = data[i];
        let word = (b as u32) << 8u32;
        assert(((b as u32) << 8u32) == (b as u32) * 256) by (bit_vector);
        sum = sum.wrapping_add(word);
    }
    let ghost total = sum;
    assert(fold_carries(total) == fold_carries(sum_words(0, data@)));
    while (sum >> 16u32) != 0
        invariant
            fold_carries(sum) == fold_carries(total),
        decreases sum,
    {
        assert((sum >> 16u32) != 0 ==> (sum & 0xFFFFu32) + (sum >> 16u32) < sum) by (bit_vector);
        assert((sum & 0xFFFFu32) + (sum >> 16u32) <= 0x1FFFEu32) by (bit_vector);
        sum = (sum & 0xFFFF) + (sum >> 16);
    }
    !(sum as u16)
}

/// The plain sum of the big-endian 16-bit words of an even-length `d`.
pub open spec fn word_total(d: Seq<u8>) -> int
    decreases d.len(),
{
    if d.len() >= 2 {
        spec_be16(d[0], d[1]) as int + word_total(d.skip(2))
    } else {
        0
    }
}

proof fn lemma_word_total_bound(d: Seq<u8>)
    requires
        d.len() % 2 == 0,
    ensures
        0 <= word_total(d) <= (d.len() / 2) * 65535,
    decreases d.len(),
{
    if d.len() >= 2 {
        lemma_word_total_bound(d.skip(2));
    }
}

proof fn lemma_sum_words_exact(acc: u32, d: Seq<u8>)
    requires
        d.len() % 2 == 0,
        acc + (d.len() / 2) * 65535 <= u32::MAX,
    ensures
        sum_words(acc, d) == acc + word_total(d),
    decreases d.len(),
{
    if d.len() >= 2 {
        let w = spec_be16(d[0], d[1]);
        assert(acc.wrapping_add(w as u32) == acc + w);
        lemma_sum_words_exact(acc.wrapping_add(w as u32), d.skip(2));
    }
}

proof fn lemma_word_total_push(d: Seq<u8>, hi: u8, lo: u8)
    requires
        d.len() % 2 == 0,
    ensures
        word_total(d.push(hi).push(lo)) == word_total(d) + spec_be16(hi, lo),
    decreases d.len(),
{
    let e = d.push(hi).push(lo);
    if d.len() >= 2 {
        assert(e.skip(2) =~= d.skip(2).push(hi).push(lo));
        assert(e[0] == d[0] && e[1] == d[1]);
        lemma_word_total_push(d.skip(2), hi, lo);
    } else {
        assert(e.skip(2) =~= Seq::<u8>::empty());
        assert(e[0] == hi && e[1] == lo);
        assert(word_total(e.skip(2)) == 0);
        assert(word_total(d) == 0);
    }
}

proof fn lemma_fold_carries(s: u32)
    ensures
        fold_carries(s) <= 0xFFFF,
        fold_carries(s) <= s,
        fold_carries(s) % 65535 == s % 65535,
        s > 0 ==> fold_carries(s) > 0,
    decreases s,
{
    if s >> 16u32 != 0 {
        let t = ((s & 0xFFFFu32) + (s >> 16u32)) as u32;
        assert(s >> 16u32 != 0 ==> (s & 0xFFFFu32) + (s >> 16u32) < s) by (bit_vector);
        assert((s & 0xFFFFu32) == s % 65536 && (s >> 16u32) == s / 65536) by (bit_vector);
        assert(s == (s / 65536) * 65536 + s % 65536) by (nonlinear_arith);
        assert(((s / 65536) * 65536 + s % 65536) % 65535 == ((s / 65536) + s % 65536) % 65535)
            by (nonlinear_arith);
        lemma_fold_carries(t);
    } else {
        assert(s >> 16u32 == 0 ==> s <= 0xFFFF) by (bit_vector);
    }
}

/// A checksum appended to the even-length data it covers makes the whole
/// check out: the checksum of the data followed by its own checksum, high
/// byte first, is zero (for data of up to 65535 words, where the running
/// sum cannot wrap).
pub proof fn law_appended_checksum_checks_out(d: Seq<u8>)
    requires
        d.len() % 2 == 0,
        d.len() <= 131070,
    ensures
        ({
            let c = spec_checksum(d);
            spec_checksum(d.push(spec_hi8(c)).push(spec_lo8(c))) == 0
        }),
{
    let c = spec_checksum(d);
    let e = d.push(spec_hi8(c)).push(spec_lo8(c));
    lemma_word_total_bound(d);
    lemma_sum_words_exact(0, d);
    let s = sum_words(0, d);
    lemma_fold_carries(s);
    let f = fold_carries(s);
    assert(c == 0xFFFF - f) by {
        let fu = f as u16;
        assert(fu == f);
        assert(!fu == 0xFFFF - fu) by (bit_vector);
    }
    assert(spec_be16(spec_hi8(c), spec_lo8(c)) == c) by {
        assert(c / 256 < 256 && (c / 256) * 256 + c % 256 == c) by (nonlinear_arith);
    }
    lemma_word_total_push(d, spec_hi8(c), spec_lo8(c));
    assert(e.len() == d.len() + 2);
    lemma_sum_words_exact(0, e);
    let s2 = sum_words(0, e);
    assert(s2 == s + 0xFFFF - f);
    lemma_fold_carries(s2);
    let f2 = fold_carries(s2);
    assert(s2 % 65535 == 0) by {
        assert((s + 0xFFFF - f) % 65535 == (s - f) % 65535) by (nonlinear_arith);
        assert(s % 65535 == f % 65535);
        assert((s - f) % 65535 == 0) by (nonlinear_arith)
            requires
                s % 65535 == f % 65535,
                s >= f,
        ;
    }
    assert(f2 == 0xFFFF) by (nonlinear_arith)
        requires
            f2 % 65535 == 0,
            0 < f2 <= 0xFFFF,
    ;
    assert(!(0xFFFFu16) == 0u16) by (bit_vector);
}

/// Split a byte at bit `index`: the bits above it and the bits below it.
pub fn split_u8_by_index(byte: u8, index: usize) -> (r: (u8, u8))
    requires
        index <= 7,
    ensures
        r.0 == byte >> (index as u8),
        r.1 == byte & (((1u8 << (index as u8)) - 1) as u8),
{
    let i = index as u8;
    assert(i <= 7 ==> (1u8 << i) >= 1) by (bit_vector);
    (byte >> i, byte & ((1u8 << i) - 1))
}

} // verus!
