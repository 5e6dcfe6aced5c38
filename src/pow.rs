//! The verified parts of a hashcash-style proof of work on top of Balloon:
//! the bytes that each nonce hashes, the Balloon run with the fixed
//! costs of the scheme, and the difficulty test on a digest.
use vstd::prelude::*;

use crate::derive::balloon;
use crate::error::Error;
use crate::model::balloon_result;
use crate::utilz::{le_bytes, push_bytes, push_le_u64};

verus! {

/// Space cost of the proof-of-work Balloon run.
pub const HASHCASH_SPACE: usize = 16;

/// Time cost of the proof-of-work Balloon run.
pub const HASHCASH_TIME: usize = 20;

/// Dependencies per block of the proof-of-work Balloon run.
pub const HASHCASH_DELTA: usize = 4;

/// The number of zero bits at the start of `s`, most significant bit of
/// each byte first.
pub open spec fn leading_zero_bits(s: Seq<u8>) -> nat
    decreases s.len(),
{
    if s.len() == 0 {
        0
    } else if s[0] == 0 {
        8 + leading_zero_bits(s.drop_first())
    } else {
        byte_leading_zeros(s[0])
    }
}

/// The number of zero bits above the highest set bit of `b` (8 for 0).
pub open spec fn byte_leading_zeros(b: u8) -> nat {
    if b >= 0x80 {
        0
    } else if b >= 0x40 {
        1
    } else if b >= 0x20 {
        2
    } else if b >= 0x10 {
        3
    } else if b >= 0x08 {
        4
    } else if b >= 0x04 {
        5
    } else if b >= 0x02 {
        6
    } else if b >= 0x01 {
        7
    } else {
        8
    }
}

/// `u8::leading_zeros` counts the zero bits above the highest set bit.
proof fn lemma_byte_leading_zeros(b: u8)
    ensures
        b.leading_zeros() == byte_leading_zeros(b),
{
    let k = b.leading_zeros();
    assert(0 <= k <= 8);
    if k == 0 {
        assert((b >> 7u8) & 1u8 != 0u8 ==> b >= 0x80) by (bit_vector);
    } else if k == 1 {
        assert(b >> 7u8 == 0u8 && (b >> 6u8) & 1u8 != 0u8 ==> 0x40 <= b < 0x80) by (bit_vector);
    } else if k == 2 {
        assert(b >> 6u8 == 0u8 && (b >> 5u8) & 1u8 != 0u8 ==> 0x20 <= b < 0x40) by (bit_vector);
    } else if k == 3 {
        assert(b >> 5u8 == 0u8 && (b >> 4u8) & 1u8 != 0u8 ==> 0x10 <= b < 0x20) by (bit_vector);
    } else if k == 4 {
        assert(b >> 4u8 == 0u8 && (b >> 3u8) & 1u8 != 0u8 ==> 0x08 <= b < 0x10) by (bit_vector);
    } else if k == 5 {
        assert(b >> 3u8 == 0u8 && (b >> 2u8) & 1u8 != 0u8 ==> 0x04 <= b < 0x08) by (bit_vector);
    } else if k == 6 {
        assert(b >> 2u8 == 0u8 && (b >> 1u8) & 1u8 != 0u8 ==> 0x02 <= b < 0x04) by (bit_vector);
    } else if k == 7 {
        assert(b >> 1u8 == 0u8 && (b >> 0u8) & 1u8 != 0u8 ==> b == 0x01) by (bit_vector);
    }
}

/// Counts the zero bits at the start of `data`.
pub fn leading_zeros(data: &[u8]) -> (r: usize)
    requires
        data@.len() * 8 <= usize::MAX,
    ensures
        r == leading_zero_bits(data@),
{
    let mut zeros: usize = 0;
    let mut i: usize = 0;
    assert(data@.subrange(0, data@.len() as int) =~= data@);
    while i < data.len()
        invariant
            i <= data@.len(),
            data@.len() * 8 <= usize::MAX,
            zeros == 8 * i,
            leading_zero_bits(data@) == 8 * i + leading_zero_bits(data@.subrange(i as int, data@.len() as int)),
        decreases data@.len() - i,
    {
        let ghost rest = data@.subrange(i as int, data@.len() as int);
        let lz = data[i].leading_zeros();
        proof {
            lemma_byte_leading_zeros(data@[i as int]);
        }
        zeros = 8 * i + lz as usize;
        if lz < 8 {
            return zeros;
        }
        assert(rest.drop_first() =~= data@.subrange(i + 1, data@.len() as int));
        i = i + 1;
    }
    zeros
}

/// Whether `digest` starts with at least `difficulty` zero bits.
pub fn meets_difficulty(digest: &[u8], difficulty: u8) -> (r: bool)
    requires
        digest@.len() * 8 <= usize::MAX,
    ensures
        r == (leading_zero_bits(digest@) >= difficulty),
{
    leading_zeros(digest) >= difficulty as usize
}

/// The bytes worked on for `nonce`: the data followed by the nonce's
/// eight little-endian bytes.
pub fn hashcash_input(data: &[u8], nonce: u64) -> (r: Vec<u8>)
    ensures
        r@ == data@ + le_bytes(nonce),
{
    let mut buf: Vec<u8> = Vec::new();
    push_bytes(&mut buf, data);
    push_le_u64(&mut buf, nonce);
    buf
}

/// The Balloon digest of `buf` with the proof of work's fixed costs,
/// salted with the first eight bytes of `salt_digest`.
pub fn hashcash_balloon(buf: &[u8], salt_digest: &[u8]) -> (r: [u8; 32])
    requires
        salt_digest@.len() >= 8,
    ensures
        balloon_result(buf@, salt_digest@.subrange(0, 8), 16, 20, 4) == Ok::<Seq<u8>, Error>(r@),
{
    let salt = slice_prefix(salt_digest, 8);
    match balloon(buf, salt.as_slice(), HASHCASH_SPACE, HASHCASH_TIME, HASHCASH_DELTA) {
        Ok(d) => d,
        Err(_) => {
            assert(false);
            [0u8; 32]
        },
    }
}

/// The first `n` bytes of `s`.
fn slice_prefix(s: &[u8], n: usize) -> (r: Vec<u8>)
    requires
        n <= s@.len(),
    ensures
        r@ == s@.subrange(0, n as int),
{
    let mut out: Vec<u8> = Vec::new();
    let mut i: usize = 0;
    while i < n
        invariant
            i <= n <= s@.len(),
            out@ == s@.subrange(0, i as int),
        decreases n - i,
    {
        out.push(s[i]);
        i = i + 1;
        assert(out@ =~= s@.subrange(0, i as int));
    }
    out
}

} // verus!
