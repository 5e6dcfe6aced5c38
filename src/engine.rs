//! The mixing engine: a buffer of BLAKE3-sized blocks, the configuration,
//! and the domain-separation counter, reused from one run to the next.
use vstd::prelude::*;

use crate::buffer::SpaceHandler;
use crate::hash::blake3_hash;
use crate::model::{
    balloon_block, entangle, entangle_all, expand_chain, expanded, lemma_expand_chain_len,
    lemma_mix_rounds_len, mix_block, mix_round, mix_rounds, predecessor, refresh, Mixing,
};
use crate::utilz::{le_bytes, push_bytes, push_le_u64, u64_from_le_prefix};

verus! {

/// A reusable Balloon instance over BLAKE3, with 32-byte blocks.
pub struct Balloon {
    /// One block per unit of space.
    buffer: SpaceHandler<[u8; 32]>,
    /// Counts the hash calls of the current run.
    counter: u64,
    /// The number of blocks in the buffer (space cost).
    space: usize,
    /// The number of mixing rounds (time cost).
    time: usize,
    /// The number of pseudo-random dependencies per block.
    delta: usize,
}

impl Balloon {
    /// The space cost this instance runs with.
    pub closed spec fn space_cost(&self) -> nat {
        self.space as nat
    }

    /// The time cost this instance runs with.
    pub closed spec fn time_cost(&self) -> nat {
        self.time as nat
    }

    /// The number of dependencies per block this instance runs with.
    pub closed spec fn delta_cost(&self) -> nat {
        self.delta as nat
    }

    /// The buffer's blocks as byte sequences.
    closed spec fn blocks(&self) -> Seq<Seq<u8>> {
        self.buffer@.map_values(|b: [u8; 32]| b@)
    }

    /// The blocks and the counter.
    closed spec fn state(&self) -> Mixing {
        Mixing { blocks: self.blocks(), counter: self.counter }
    }

    /// A new instance with the given costs and a buffer of `space` blocks.
    pub fn new(space: usize, time: usize, delta: usize) -> (r: Balloon)
        ensures
            r.space_cost() == space,
            r.time_cost() == time,
            r.delta_cost() == delta,
    {
        Balloon {
            buffer: SpaceHandler::allocate(space, [0u8; 32]),
            counter: 0,
            space,
            time,
            delta,
        }
    }

    /// Sets the costs of the next runs; the buffer is resized when a run starts.
    pub fn reconfigure(&mut self, space: usize, time: usize, delta: usize)
        ensures
            final(self).space_cost() == space,
            final(self).time_cost() == time,
            final(self).delta_cost() == delta,
    {
        self.space = space;
        self.time = time;
        self.delta = delta;
    }

    /// Runs expansion, mixing and extraction on `pass` and `salt`, and
    /// returns the last block of the buffer. Nothing of an earlier run
    /// remains: the buffer is overwritten and the counter starts at zero.
    pub fn process(&mut self, pass: &[u8], salt: &[u8]) -> (r: [u8; 32])
        requires
            old(self).space_cost() > 0,
        ensures
            r@ == balloon_block(
                pass@,
                salt@,
                old(self).space_cost(),
                old(self).time_cost(),
                old(self).delta_cost(),
            ),
            final(self).space_cost() == old(self).space_cost(),
            final(self).time_cost() == old(self).time_cost(),
            final(self).delta_cost() == old(self).delta_cost(),
    {
        self.expand(pass, salt);
        self.mix(salt);
        proof {
            lemma_expand_chain_len(pass@, salt@, self.space as nat);
            lemma_mix_rounds_len(
                expanded(pass@, salt@, self.space as nat),
                salt@,
                self.time as nat,
                self.space as nat,
                self.delta as nat,
            );
        }
        *self.buffer.index(self.space - 1)
    }

    /// Runs `time` rounds of mixing over the buffer.
    fn mix(&mut self, salt: &[u8])
        requires
            old(self).space > 0,
            old(self).buffer@.len() == old(self).space,
        ensures
            final(self).state() == mix_rounds(
                old(self).state(),
                salt@,
                old(self).time as nat,
                old(self).space as nat,
                old(self).delta as nat,
            ),
            final(self).buffer@.len() == old(self).space,
            final(self).space == old(self).space,
            final(self).time == old(self).time,
            final(self).delta == old(self).delta,
    {
        let space = self.space;
        let time = self.time;
        let delta = self.delta;
        let ghost start = self.state();
        for t in 0..time
            invariant
                self.state() == mix_rounds(start, salt@, t as nat, space as nat, delta as nat),
                self.buffer@.len() == space,
                space > 0,
                self.space == space,
                self.time == time,
                self.delta == delta,
        {
            let ghost round_start = self.state();
            for m in 0..space
                invariant
                    self.state() == mix_round(round_start, salt@, t as nat, m as nat, delta as nat),
                    self.buffer@.len() == space,
                    space > 0,
                    self.space == space,
                    self.time == time,
                    self.delta == delta,
            {
                self.mix_block(salt, t, m);
            }
        }
    }

    /// Mixes block `m` in round `t`: first with the block before it, then
    /// with `delta` blocks picked by challenge hashes.
    fn mix_block(&mut self, salt: &[u8], t: usize, m: usize)
        requires
            m < old(self).space,
            old(self).buffer@.len() == old(self).space,
        ensures
            final(self).state() == mix_block(old(self).state(), salt@, t as nat, m as nat, old(self).delta as nat),
            final(self).buffer@.len() == old(self).space,
            final(self).space == old(self).space,
            final(self).time == old(self).time,
            final(self).delta == old(self).delta,
    {
        let space = self.space;
        let ghost before = self.state();
        let prev_index: usize = if m == 0 { space - 1 } else { m - 1 };
        let mut input: Vec<u8> = Vec::new();
        push_le_u64(&mut input, self.counter);
        self.counter = self.counter.wrapping_add(1);
        let prev: [u8; 32] = *self.buffer.index(prev_index);
        push_bytes(&mut input, prev.as_slice());
        let block = blake3_hash(input.as_slice());
        self.buffer.set(m, block);
        proof {
            reveal(refresh);
            assert(predecessor(m as nat, space as nat) == prev_index) by (nonlinear_arith)
                requires m < space, prev_index == if m == 0 { space - 1 } else { m - 1 };
            assert(self.blocks() =~= refresh(before, m as nat).blocks);
        }
        let ghost refreshed = self.state();
        let delta = self.delta;
        for j in 0..delta
            invariant
                self.state() == entangle_all(refreshed, salt@, t as nat, m as nat, j as nat),
                self.buffer@.len() == space,
                m < space,
                self.space == space,
                self.time == old(self).time,
                self.delta == delta,
                delta == old(self).delta,
        {
            let ghost current = self.state();
            let mut question: Vec<u8> = Vec::new();
            push_le_u64(&mut question, self.counter);
            self.counter = self.counter.wrapping_add(1);
            push_bytes(&mut question, salt);
            push_le_u64(&mut question, t as u64);
            push_le_u64(&mut question, m as u64);
            push_le_u64(&mut question, j as u64);
            let answer = blake3_hash(question.as_slice());
            let x = u64_from_le_prefix(answer.as_slice());
            let other = (x % (space as u64)) as usize;
            let mut input: Vec<u8> = Vec::new();
            push_le_u64(&mut input, self.counter);
            self.counter = self.counter.wrapping_add(1);
            let own: [u8; 32] = *self.buffer.index(m);
            let picked: [u8; 32] = *self.buffer.index(other);
            push_bytes(&mut input, own.as_slice());
            push_bytes(&mut input, picked.as_slice());
            let block = blake3_hash(input.as_slice());
            self.buffer.set(m, block);
            proof {
                reveal(entangle);
                assert(question@ == le_bytes(current.counter) + salt@ + le_bytes(t as u64)
                    + le_bytes(m as u64) + le_bytes(j as u64));
                assert(self.blocks() =~= entangle(current, salt@, t as nat, m as nat, j as nat).blocks);
            }
        }
    }

    /// Fills the buffer with the hash chain of `pass` and `salt`.
    fn expand(&mut self, pass: &[u8], salt: &[u8])
        requires
            old(self).space > 0,
        ensures
            final(self).state() == expanded(pass@, salt@, old(self).space as nat),
            final(self).buffer@.len() == old(self).space,
            final(self).space == old(self).space,
            final(self).time == old(self).time,
            final(self).delta == old(self).delta,
    {
        self.buffer.resize(self.space, [0u8; 32]);
        self.counter = 0;
        let mut input: Vec<u8> = Vec::new();
        push_le_u64(&mut input, self.counter);
        self.counter = self.counter.wrapping_add(1);
        push_bytes(&mut input, salt);
        push_bytes(&mut input, pass);
        let first = blake3_hash(input.as_slice());
        self.buffer.set(0, first);
        proof {
            reveal_with_fuel(expand_chain, 2);
            assert(self.blocks().subrange(0, 1) =~= expand_chain(pass@, salt@, 1));
        }
        let mut i: usize = 1;
        while i < self.space
            invariant
                1 <= i <= self.space,
                self.buffer@.len() == self.space,
                self.counter == i as u64,
                self.blocks().subrange(0, i as int) == expand_chain(pass@, salt@, i as nat),
                self.space == old(self).space,
                self.time == old(self).time,
                self.delta == old(self).delta,
            decreases self.space - i,
        {
            let ghost chain = expand_chain(pass@, salt@, i as nat);
            proof {
                lemma_expand_chain_len(pass@, salt@, i as nat);
                assert(chain.last() == self.blocks().subrange(0, i as int)[i - 1]);
            }
            let mut input: Vec<u8> = Vec::new();
            push_le_u64(&mut input, self.counter);
            self.counter = self.counter.wrapping_add(1);
            let prev: [u8; 32] = *self.buffer.index(i - 1);
            push_bytes(&mut input, prev.as_slice());
            let block = blake3_hash(input.as_slice());
            self.buffer.set(i, block);
            i = i + 1;
            proof {
                assert(expand_chain(pass@, salt@, i as nat) == chain.push(block@));
                assert(self.blocks().subrange(0, i as int) =~= chain.push(block@));
            }
        }
        proof {
            assert(self.blocks() =~= self.blocks().subrange(0, i as int));
        }
    }
}

} // verus!
