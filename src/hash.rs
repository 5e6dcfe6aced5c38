use subtle::ConstantTimeEq;
use vstd::prelude::*;

verus! {

/// The BLAKE3 digest of `input`: 32 bytes that depend on `input` alone.
pub uninterp spec fn blake3_of(input: Seq<u8>) -> Seq<u8>;

/// Relies on `blake3::hash`: the 32-byte BLAKE3 digest of the input.
#[verifier::external_body]
pub(crate) fn blake3_hash(input: &[u8]) -> (r: [u8; 32])
    ensures
        r@ == blake3_of(input@),
{
    *blake3::hash(input).as_bytes()
}

/// Relies on subtle's `ConstantTimeEq` for slices, read through
/// `From<Choice> for bool`: true exactly when both slices have the same
/// length and the same bytes, in time that depends on the length only.
#[verifier::external_body]
pub(crate) fn ct_eq_bytes(a: &[u8], b: &[u8]) -> (r: bool)
    ensures
        r == (a@ == b@),
{
    bool::from(a.ct_eq(b))
}

} // verus!
