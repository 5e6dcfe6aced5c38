//! The Balloon construction as mathematics: each phase is a function from
//! the blocks and the domain-separation counter to new blocks and counter.
use vstd::prelude::*;

use crate::error::Error;
use crate::hash::blake3_of;
use crate::utilz::{le_bytes, le_value};

verus! {

/// The blocks of the buffer together with the domain-separation counter.
pub struct Mixing {
    pub blocks: Seq<Seq<u8>>,
    pub counter: u64,
}

/// The counter after one hash call: one more, wrapping round at 2^64.
pub open spec fn next_count(c: u64) -> u64 {
    vstd::wrapping::u64_specs::wrapping_add(c, 1)
}

/// The first `n` blocks of the expansion chain: block 0 hashes the counter
/// 0, the salt and the password; block `i` hashes the counter `i` and
/// block `i - 1`.
pub open spec fn expand_chain(pass: Seq<u8>, salt: Seq<u8>, n: nat) -> Seq<Seq<u8>>
    decreases n,
{
    if n == 0 {
        Seq::empty()
    } else if n == 1 {
        seq![blake3_of(le_bytes(0) + salt + pass)]
    } else {
        let prev = expand_chain(pass, salt, (n - 1) as nat);
        prev.push(blake3_of(le_bytes((n - 1) as u64) + prev.last()))
    }
}

/// The state when expansion of `space` blocks is done.
pub open spec fn expanded(pass: Seq<u8>, salt: Seq<u8>, space: nat) -> Mixing {
    Mixing { blocks: expand_chain(pass, salt, space), counter: space as u64 }
}

/// The index before `m`, wrapping round from 0 to the last block.
pub open spec fn predecessor(m: nat, space: nat) -> nat {
    ((m - 1) % (space as int)) as nat
}

/// Block `m` becomes the hash of the counter and the block before it.
#[verifier::opaque]
pub open spec fn refresh(st: Mixing, m: nat) -> Mixing {
    let prev = st.blocks[predecessor(m, st.blocks.len()) as int];
    Mixing {
        blocks: st.blocks.update(m as int, blake3_of(le_bytes(st.counter) + prev)),
        counter: next_count(st.counter),
    }
}

/// The challenge hash for dependency `j` of block `m` in round `t`.
pub open spec fn challenge(salt: Seq<u8>, counter: u64, t: nat, m: nat, j: nat) -> Seq<u8> {
    blake3_of(
        le_bytes(counter) + salt + le_bytes(t as u64) + le_bytes(m as u64) + le_bytes(j as u64),
    )
}

/// The block that a challenge digest points at: its first eight bytes,
/// read little-endian, reduced modulo the number of blocks.
pub open spec fn challenge_index(digest: Seq<u8>, space: nat) -> nat {
    le_value(digest.subrange(0, 8)) % space
}

/// Dependency `j` of block `m` in round `t`: a challenge picks another
/// block, and block `m` becomes the hash of the counter, itself and that
/// block.
#[verifier::opaque]
pub open spec fn entangle(st: Mixing, salt: Seq<u8>, t: nat, m: nat, j: nat) -> Mixing {
    let other = challenge_index(challenge(salt, st.counter, t, m, j), st.blocks.len());
    let c = next_count(st.counter);
    Mixing {
        blocks: st.blocks.update(
            m as int,
            blake3_of(le_bytes(c) + st.blocks[m as int] + st.blocks[other as int]),
        ),
        counter: next_count(c),
    }
}

/// The first `n` dependencies of block `m` in round `t`.
pub open spec fn entangle_all(st: Mixing, salt: Seq<u8>, t: nat, m: nat, n: nat) -> Mixing
    decreases n,
{
    if n == 0 {
        st
    } else {
        entangle(entangle_all(st, salt, t, m, (n - 1) as nat), salt, t, m, (n - 1) as nat)
    }
}

/// All the work on block `m` in round `t`.
pub open spec fn mix_block(st: Mixing, salt: Seq<u8>, t: nat, m: nat, delta: nat) -> Mixing {
    entangle_all(refresh(st, m), salt, t, m, delta)
}

/// Blocks `0..n` of round `t`.
pub open spec fn mix_round(st: Mixing, salt: Seq<u8>, t: nat, n: nat, delta: nat) -> Mixing
    decreases n,
{
    if n == 0 {
        st
    } else {
        mix_block(mix_round(st, salt, t, (n - 1) as nat, delta), salt, t, (n - 1) as nat, delta)
    }
}

/// Rounds `0..n` over `space` blocks.
pub open spec fn mix_rounds(st: Mixing, salt: Seq<u8>, n: nat, space: nat, delta: nat) -> Mixing
    decreases n,
{
    if n == 0 {
        st
    } else {
        mix_round(mix_rounds(st, salt, (n - 1) as nat, space, delta), salt, (n - 1) as nat, space, delta)
    }
}

/// The last block after expansion and `time` rounds of mixing.
pub open spec fn balloon_block(pass: Seq<u8>, salt: Seq<u8>, space: nat, time: nat, delta: nat) -> Seq<u8> {
    mix_rounds(expanded(pass, salt, space), salt, time, space, delta).blocks[space - 1]
}

/// The digest handed to callers: the hash of the extracted block.
pub open spec fn balloon_digest(pass: Seq<u8>, salt: Seq<u8>, space: nat, time: nat, delta: nat) -> Seq<u8> {
    blake3_of(balloon_block(pass, salt, space, time, delta))
}

/// What a derivation returns: the first failed parameter check, else the digest.
pub open spec fn balloon_result(pass: Seq<u8>, salt: Seq<u8>, space: nat, time: nat, delta: nat) -> Result<Seq<u8>, Error> {
    if space < 1 {
        Err(Error::InvalidSpace)
    } else if time < 1 {
        Err(Error::InvalidTime)
    } else if salt.len() < 4 {
        Err(Error::InvalidSalt)
    } else {
        Ok(balloon_digest(pass, salt, space, time, delta))
    }
}

/// One step of mixing keeps the number of blocks and moves the counter on.
pub proof fn lemma_step_len(st: Mixing, salt: Seq<u8>, t: nat, m: nat, j: nat)
    requires
        m < st.blocks.len(),
    ensures
        refresh(st, m).blocks.len() == st.blocks.len(),
        entangle(st, salt, t, m, j).blocks.len() == st.blocks.len(),
{
    reveal(refresh);
    reveal(entangle);
}

/// Mixing keeps the number of blocks.
pub proof fn lemma_entangle_all_len(st: Mixing, salt: Seq<u8>, t: nat, m: nat, n: nat)
    requires
        m < st.blocks.len(),
    ensures
        entangle_all(st, salt, t, m, n).blocks.len() == st.blocks.len(),
    decreases n,
{
    if n > 0 {
        lemma_entangle_all_len(st, salt, t, m, (n - 1) as nat);
        lemma_step_len(entangle_all(st, salt, t, m, (n - 1) as nat), salt, t, m, (n - 1) as nat);
    }
}

/// A round keeps the number of blocks.
pub proof fn lemma_mix_round_len(st: Mixing, salt: Seq<u8>, t: nat, n: nat, delta: nat)
    requires
        n <= st.blocks.len(),
    ensures
        mix_round(st, salt, t, n, delta).blocks.len() == st.blocks.len(),
    decreases n,
{
    if n > 0 {
        let prev = mix_round(st, salt, t, (n - 1) as nat, delta);
        lemma_mix_round_len(st, salt, t, (n - 1) as nat, delta);
        lemma_step_len(prev, salt, t, (n - 1) as nat, 0);
        lemma_entangle_all_len(refresh(prev, (n - 1) as nat), salt, t, (n - 1) as nat, delta);
    }
}

/// Any number of rounds keeps the number of blocks.
pub proof fn lemma_mix_rounds_len(st: Mixing, salt: Seq<u8>, n: nat, space: nat, delta: nat)
    requires
        space == st.blocks.len(),
    ensures
        mix_rounds(st, salt, n, space, delta).blocks.len() == st.blocks.len(),
    decreases n,
{
    if n > 0 {
        lemma_mix_rounds_len(st, salt, (n - 1) as nat, space, delta);
        lemma_mix_round_len(mix_rounds(st, salt, (n - 1) as nat, space, delta), salt, (n - 1) as nat, space, delta);
    }
}

/// The expansion chain has one block per step.
pub proof fn lemma_expand_chain_len(pass: Seq<u8>, salt: Seq<u8>, n: nat)
    ensures
        expand_chain(pass, salt, n).len() == n,
    decreases n,
{
    if n > 1 {
        lemma_expand_chain_len(pass, salt, (n - 1) as nat);
    }
}

} // verus!
