//! Little-endian 32-bit words stored in byte sequences.

use vstd::prelude::*;

verus! {

/// The little-endian word of `s` at byte `i`.
pub open spec fn word_at(s: Seq<u8>, i: int) -> u32 {
    (s[i] as u32) | ((s[i + 1] as u32) << 8u32) | ((s[i + 2] as u32) << 16u32) | ((s[i + 3] as u32) << 24u32)
}

/// `s` with the little-endian bytes of `w` written at byte `i`.
pub open spec fn put_word(s: Seq<u8>, i: int, w: u32) -> Seq<u8> {
    s.update(i, (w & 0xff) as u8)
        .update(i + 1, ((w >> 8u32) & 0xff) as u8)
        .update(i + 2, ((w >> 16u32) & 0xff) as u8)
        .update(i + 3, ((w >> 24u32) & 0xff) as u8)
}

/// Reading a word back where it was written gives that word.
pub proof fn lemma_word_round_trip(s: Seq<u8>, i: int, w: u32)
    requires
        0 <= i,
        i + 4 <= s.len(),
    ensures
        word_at(put_word(s, i, w), i) == w,
        put_word(s, i, w).len() == s.len(),
{
    let t = put_word(s, i, w);
    assert(t[i] == (w & 0xff) as u8);
    assert(t[i + 1] == ((w >> 8u32) & 0xff) as u8);
    assert(t[i + 2] == ((w >> 16u32) & 0xff) as u8);
    assert(t[i + 3] == ((w >> 24u32) & 0xff) as u8);
    assert((((w & 0xff) as u8) as u32) | (((((w >> 8u32) & 0xff) as u8) as u32) << 8u32)
        | (((((w >> 16u32) & 0xff) as u8) as u32) << 16u32)
        | (((((w >> 24u32) & 0xff) as u8) as u32) << 24u32) == w) by (bit_vector);
}

/// Reads the little-endian word at byte `at` of `bytes`.
pub fn read_word(bytes: &Vec<u8>, at: usize) -> (r: u32)
    requires
        at + 4 <= bytes@.len(),
    ensures
        r == word_at(bytes@, at as int),
{
    let _n: usize = bytes.len();
    (bytes[at] as u32) | ((bytes[at + 1] as u32) << 8u32) | ((bytes[at + 2] as u32) << 16u32)
        | ((bytes[at + 3] as u32) << 24u32)
}

/// Writes `w` as a little-endian word at byte `at` of `bytes`.
pub fn write_word(bytes: &mut Vec<u8>, at: usize, w: u32)
    requires
        at + 4 <= old(bytes)@.len(),
    ensures
        final(bytes)@ == put_word(old(bytes)@, at as int, w),
{
    let _n: usize = bytes.len();
    assert((w & 0xff) < 256u32 && ((w >> 8u32) & 0xff) < 256u32 && ((w >> 16u32) & 0xff) < 256u32
        && ((w >> 24u32) & 0xff) < 256u32) by (bit_vector);
    bytes.set(at, (w & 0xff) as u8);
    bytes.set(at + 1, ((w >> 8u32) & 0xff) as u8);
    bytes.set(at + 2, ((w >> 16u32) & 0xff) as u8);
    bytes.set(at + 3, ((w >> 24u32) & 0xff) as u8);
}

} // verus!
