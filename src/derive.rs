//! Parameter checks, the final compression, and constant-time verification.
use vstd::prelude::*;

use crate::engine::Balloon;
use crate::error::Error;
use crate::hash::{blake3_hash, ct_eq_bytes};
use crate::model::balloon_result;

verus! {

/// A digest result seen as bytes.
pub open spec fn digest_view(r: Result<[u8; 32], Error>) -> Result<Seq<u8>, Error> {
    match r {
        Ok(d) => Ok(d@),
        Err(e) => Err(e),
    }
}

/// What verifying `expected` returns: the derivation's error, or whether
/// the derived digest equals `expected`.
pub open spec fn verify_result(
    expected: Seq<u8>,
    pass: Seq<u8>,
    salt: Seq<u8>,
    space: nat,
    time: nat,
    delta: nat,
) -> Result<bool, Error> {
    match balloon_result(pass, salt, space, time, delta) {
        Ok(d) => Ok(d == expected),
        Err(e) => Err(e),
    }
}

/// What comparing `a` with `b` returns: nothing when they are equal.
pub open spec fn compare_result(a: Seq<u8>, b: Seq<u8>) -> Option<Error> {
    if a == b {
        None
    } else {
        Some(Error::InvalidFormat)
    }
}

/// Derives the Balloon-BLAKE3 digest of `passy` under `salty`, with
/// `space` blocks, `time` rounds and `delta` dependencies per block.
/// The parameters are checked before any hashing: a zero space cost, a
/// zero time cost, and a salt shorter than four bytes are refused, in
/// that order.
pub fn balloon(passy: &[u8], salty: &[u8], space: usize, time: usize, delta: usize) -> (r: Result<[u8; 32], Error>)
    ensures
        digest_view(r) == balloon_result(passy@, salty@, space as nat, time as nat, delta as nat),
{
    if space < 1 {
        return Err(Error::InvalidSpace);
    }
    if time < 1 {
        return Err(Error::InvalidTime);
    }
    if salty.len() < 4 {
        return Err(Error::InvalidSalt);
    }
    let mut ctx = Balloon::new(space, time, delta);
    let res = ctx.process(passy, salty);
    Ok(blake3_hash(res.as_slice()))
}

/// Checks `val` against the digest of `passy` under `salty` with the
/// given costs, comparing in constant time.
pub fn verify(val: &[u8; 32], passy: &[u8], salty: &[u8], space: usize, time: usize, delta: usize) -> (r: Result<bool, Error>)
    ensures
        r == verify_result(val@, passy@, salty@, space as nat, time as nat, delta as nat),
{
    match balloon(passy, salty, space, time, delta) {
        Ok(res) => match compare_ct(res.as_slice(), val.as_slice()) {
            Some(_) => Ok(false),
            None => Ok(true),
        },
        Err(e) => Err(e),
    }
}

/// Compares two byte strings in time that depends on their lengths only.
/// Returns nothing when they are equal, and `InvalidFormat` when their
/// lengths or their bytes differ.
pub fn compare_ct(a: &[u8], b: &[u8]) -> (r: Option<Error>)
    ensures
        r == compare_result(a@, b@),
{
    if a.len() != b.len() {
        return Some(Error::InvalidFormat);
    }
    if ct_eq_bytes(a, b) {
        None
    } else {
        Some(Error::InvalidFormat)
    }
}

/// Each refused parameter gives its own error: a zero space cost gives
/// `InvalidSpace`; with a space cost, a zero time cost gives `InvalidTime`;
/// with both costs, a salt under four bytes gives `InvalidSalt`.
pub proof fn lemma_parameter_checks(pass: Seq<u8>, salt: Seq<u8>, space: nat, time: nat, delta: nat)
    ensures
        space == 0 ==> balloon_result(pass, salt, space, time, delta) == Err::<Seq<u8>, Error>(Error::InvalidSpace),
        space >= 1 && time == 0 ==> balloon_result(pass, salt, space, time, delta) == Err::<Seq<u8>, Error>(Error::InvalidTime),
        space >= 1 && time >= 1 && salt.len() < 4 ==> balloon_result(pass, salt, space, time, delta) == Err::<Seq<u8>, Error>(Error::InvalidSalt),
        space >= 1 && time >= 1 && salt.len() >= 4 ==> balloon_result(pass, salt, space, time, delta) is Ok,
{
}

/// Deriving is deterministic: two derivations with the same arguments
/// return the same digest, or the same error.
pub proof fn lemma_deterministic(
    pass: Seq<u8>,
    salt: Seq<u8>,
    space: nat,
    time: nat,
    delta: nat,
    r1: Result<[u8; 32], Error>,
    r2: Result<[u8; 32], Error>,
)
    requires
        digest_view(r1) == balloon_result(pass, salt, space, time, delta),
        digest_view(r2) == balloon_result(pass, salt, space, time, delta),
    ensures
        r1 == r2,
{
    if r1 is Ok {
        let d1 = r1->Ok_0;
        let d2 = r2->Ok_0;
        assert(d1@ == d2@);
        assert forall|i: int| 0 <= i < 32 implies d1[i] == d2[i] by {
            assert(d1@[i] == d2@[i]);
        }
        assert(d1 =~= d2);
    }
}

/// A digest derived with valid parameters verifies against the same
/// password, salt and costs.
pub proof fn lemma_round_trip(pass: Seq<u8>, salt: Seq<u8>, space: nat, time: nat, delta: nat)
    requires
        space >= 1,
        time >= 1,
        salt.len() >= 4,
    ensures
        balloon_result(pass, salt, space, time, delta) is Ok,
        verify_result(balloon_result(pass, salt, space, time, delta)->Ok_0, pass, salt, space, time, delta)
            == Ok::<bool, Error>(true),
{
}

} // verus!
