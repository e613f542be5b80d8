//! Random number generator implementation using xorshift64.
use vstd::prelude::*;
use crate::xorshift::{xorshift64, xorshift64_iter, xorshift64_step};

verus! {

/// Number of steps a freshly seeded generator discards before it is used.
pub const WARMUP_ROUNDS: u64 = 1000;

/// Random number generator implementation using xorshift64
pub struct Rng {
    /// Internal xorshift seed
    seed: u64,
}

impl View for Rng {
    type V = u64;

    /// The generator's state.
    closed spec fn view(&self) -> u64 {
        self.seed
    }
}

impl Rng {
    /// Creates a generator seeded with a hardware counter value, then
    /// discards its first `WARMUP_ROUNDS` outputs.
    pub fn new(counter: u64) -> (ret: Self)
        ensures
            ret@ == xorshift64_iter(counter, WARMUP_ROUNDS as nat),
    {
        let mut ret = Rng::seeded(counter);
        let mut i: u64 = 0;
        while i < WARMUP_ROUNDS
            invariant
                i <= WARMUP_ROUNDS,
                ret@ == xorshift64_iter(counter, i as nat),
            decreases WARMUP_ROUNDS - i,
        {
            let _ = ret.rand();
            i += 1;
        }
        ret
    }

    /// Created a RNG with a fixed `seed` value
    pub fn seeded(seed: u64) -> (ret: Self)
        ensures
            ret@ == seed,
    {
        Rng { seed }
    }

    /// Get a random 64-bit number using xorshift: the generator advances one
    /// step and the new state is returned.
    pub fn rand(&mut self) -> (r: usize)
        ensures
            final(self)@ == xorshift64(old(self)@),
            r == final(self)@ as usize,
    {
        self.seed = xorshift64_step(self.seed);
        self.seed as usize
    }
}

/// The state after `n + 1` draws from a seed is one xorshift step from the
/// state after `n` draws: with `rand`'s contract, every generator seeded
/// with the same value draws the same sequence.
pub proof fn lemma_seeded_sequence_is_determined(seed: u64, n: nat)
    ensures
        xorshift64_iter(seed, n + 1) == xorshift64(xorshift64_iter(seed, n)),
{
}

} // verus!
