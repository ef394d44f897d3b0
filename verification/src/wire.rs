//! The arithmetic of the wire format: big-endian words and four-byte padding.
use vstd::prelude::*;

verus! {

/// Every item on the wire occupies a multiple of this many bytes.
pub const PADDING_MULTIPLE: usize = 4;

/// The number of filler bytes that follow `n` bytes of opaque data.
pub open spec fn pad_len(n: nat) -> nat {
    ((4 - n % 4) % 4) as nat
}

/// The number of bytes that `n` bytes of opaque data occupy on the wire.
pub open spec fn padded_len(n: nat) -> nat {
    n + pad_len(n)
}

/// The number that a byte sequence denotes when read most significant byte
/// first.
pub open spec fn be_nat(bytes: Seq<u8>) -> nat
    decreases bytes.len(),
{
    if bytes.len() == 0 {
        0
    } else {
        be_nat(bytes.drop_last()) * 256 + bytes.last() as nat
    }
}

/// The two's-complement reading of an unsigned 32-bit pattern.
pub open spec fn signed32(v: nat) -> int {
    if v < 0x8000_0000 {
        v as int
    } else {
        v - 0x1_0000_0000
    }
}

/// The two's-complement reading of an unsigned 64-bit pattern.
pub open spec fn signed64(v: nat) -> int {
    if v < 0x8000_0000_0000_0000 {
        v as int
    } else {
        v - 0x1_0000_0000_0000_0000
    }
}

/// A four-byte word as an unsigned integer.
pub open spec fn be_u32(word: Seq<u8>) -> u32
    recommends
        word.len() == 4,
{
    be_nat(word) as u32
}

/// A four-byte word as a signed integer.
pub open spec fn be_i32(word: Seq<u8>) -> i32
    recommends
        word.len() == 4,
{
    signed32(be_nat(word)) as i32
}

/// Eight bytes as an unsigned integer.
pub open spec fn be_u64(word: Seq<u8>) -> u64
    recommends
        word.len() == 8,
{
    be_nat(word) as u64
}

/// Eight bytes as a signed integer.
pub open spec fn be_i64(word: Seq<u8>) -> i64
    recommends
        word.len() == 8,
{
    signed64(be_nat(word)) as i64
}

/// Padding fills up to the next multiple of four and never adds a whole
/// word; data that already ends on a word boundary gets none.
pub proof fn lemma_padded_len(n: nat)
    ensures
        padded_len(n) % 4 == 0,
        n <= padded_len(n) < n + 4,
        pad_len(n) < 4,
        n % 4 == 0 <==> padded_len(n) == n,
{
}

/// The padded length is the least multiple of four that is not below `n`.
pub proof fn lemma_padded_len_least(n: nat, m: nat)
    requires
        m % 4 == 0,
        n <= m,
    ensures
        padded_len(n) <= m,
{
}

/// The value of a four-byte word, written out byte by byte.
pub proof fn lemma_be_nat_word(word: Seq<u8>)
    requires
        word.len() == 4,
    ensures
        be_nat(word) == word[0] * 0x100_0000 + word[1] * 0x1_0000 + word[2] * 0x100 + word[3],
        be_nat(word) <= u32::MAX,
{
    let w3 = word.drop_last();
    let w2 = w3.drop_last();
    let w1 = w2.drop_last();
    assert(be_nat(w1.drop_last()) == 0);
    assert(be_nat(w1) == word[0]);
    assert(be_nat(w2) == word[0] * 0x100 + word[1]);
    assert(be_nat(w3) == word[0] * 0x1_0000 + word[1] * 0x100 + word[2]);
}

/// The value of eight bytes is that of the first four, scaled by 2^32, plus
/// that of the last four.
pub proof fn lemma_be_nat_double_word(word: Seq<u8>)
    requires
        word.len() == 8,
    ensures
        be_nat(word) == be_nat(word.subrange(0, 4)) * 0x1_0000_0000 + be_nat(word.subrange(4, 8)),
        be_nat(word) <= u64::MAX,
{
    let hi = word.subrange(0, 4);
    let lo = word.subrange(4, 8);
    let w7 = word.drop_last();
    let w6 = w7.drop_last();
    let w5 = w6.drop_last();
    let w4 = w5.drop_last();
    assert(w4 =~= hi);
    lemma_be_nat_word(hi);
    lemma_be_nat_word(lo);
    assert(be_nat(w5) == be_nat(hi) * 0x100 + word[4]);
    assert(be_nat(w6) == be_nat(hi) * 0x1_0000 + word[4] * 0x100 + word[5]);
    assert(be_nat(w7) == be_nat(hi) * 0x100_0000 + word[4] * 0x1_0000 + word[5] * 0x100 + word[6]);
}

/// Reads the four bytes of `buf` that start at `at` as a big-endian word.
pub(crate) fn be_u32_at(buf: &Vec<u8>, at: usize) -> (v: u32)
    requires
        at + 4 <= buf.len(),
    ensures
        v == be_u32(buf@.subrange(at as int, at + 4)),
{
    proof {
        lemma_be_nat_word(buf@.subrange(at as int, at + 4));
    }
    let b0: u32 = buf[at] as u32;
    let b1: u32 = buf[at + 1] as u32;
    let b2: u32 = buf[at + 2] as u32;
    let b3: u32 = buf[at + 3] as u32;
    b0 * 0x100_0000 + b1 * 0x1_0000 + b2 * 0x100 + b3
}

/// Reads the eight bytes of `buf` that start at `at` as a big-endian number.
pub(crate) fn be_u64_at(buf: &Vec<u8>, at: usize) -> (v: u64)
    requires
        at + 8 <= buf.len(),
    ensures
        v == be_u64(buf@.subrange(at as int, at + 8)),
{
    let hi: u64 = be_u32_at(buf, at) as u64;
    let lo: u64 = be_u32_at(buf, at + 4) as u64;
    proof {
        let word = buf@.subrange(at as int, at + 8);
        lemma_be_nat_double_word(word);
        assert(word.subrange(0, 4) =~= buf@.subrange(at as int, at + 4));
        assert(word.subrange(4, 8) =~= buf@.subrange(at + 4, at + 8));
        lemma_be_nat_word(word.subrange(0, 4));
        lemma_be_nat_word(word.subrange(4, 8));
    }
    hi * 0x1_0000_0000 + lo
}

/// Reinterprets an unsigned 32-bit pattern as two's complement.
pub(crate) fn to_signed32(v: u32) -> (s: i32)
    ensures
        s == signed32(v as nat),
{
    if v < 0x8000_0000 {
        v as i32
    } else {
        let low: i32 = (v - 0x8000_0000) as i32;
        low + i32::MIN
    }
}

/// Reinterprets an unsigned 64-bit pattern as two's complement.
pub(crate) fn to_signed64(v: u64) -> (s: i64)
    ensures
        s == signed64(v as nat),
{
    if v < 0x8000_0000_0000_0000 {
        v as i64
    } else {
        let low: i64 = (v - 0x8000_0000_0000_0000) as i64;
        low + i64::MIN
    }
}

} // verus!
