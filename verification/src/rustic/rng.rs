//! A basic random number generator based on xorshift64 with 64-bits of state
use vstd::prelude::*;
use crate::xorshift::{xorshift64, xorshift64_step};

verus! {

/// A basic random number generator based on xorshift64 with 64-bits of state
pub struct Rng {
    /// The RNG's seed and state
    pub seed: u64,
    /// If set, `rand_exp` behaves the same as `rand`
    pub exp_disabled: bool,
}

/// What `rand(min, max)` returns, and the state it leaves, from state `seed`.
pub open spec fn spec_rand(seed: u64, min: usize, max: usize) -> (usize, u64) {
    if min == max {
        (min, seed)
    } else if min == 0 && max == usize::MAX {
        (seed as usize, xorshift64(seed))
    } else {
        ((min + (seed as usize) % ((max - min + 1) as usize)) as usize, xorshift64(seed))
    }
}

/// What `rand_exp(min, max)` returns, and the state it leaves, from state
/// `seed` with the exponential mode enabled.
pub open spec fn spec_rand_exp(seed: u64, min: usize, max: usize) -> (usize, u64) {
    let (coin, s1) = spec_rand(seed, 0, 1);
    if coin == 0 {
        spec_rand(s1, min, max)
    } else {
        let (x, s2) = spec_rand(s1, min, max);
        spec_rand(s2, min, x)
    }
}

/// `spec_rand` stays within the requested bounds.
pub proof fn lemma_rand_in_bounds(seed: u64, min: usize, max: usize)
    requires
        min <= max,
    ensures
        min <= spec_rand(seed, min, max).0 <= max,
{
}

impl Rng {
    /// Generate a random number: returns the current state, then advances
    /// the state one xorshift64 step.
    pub fn next(&mut self) -> (r: u64)
        ensures
            r == old(self).seed,
            final(self).seed == xorshift64(old(self).seed),
            final(self).exp_disabled == old(self).exp_disabled,
    {
        let val = self.seed;
        self.seed = xorshift64_step(self.seed);
        val
    }

    /// Generates a random number with uniform distribution in the range of
    /// [min, max]
    pub fn rand(&mut self, min: usize, max: usize) -> (r: usize)
        requires
            max >= min,
        ensures
            (r, final(self).seed) == spec_rand(old(self).seed, min, max),
            min <= r <= max,
            final(self).exp_disabled == old(self).exp_disabled,
    {
        if min == max {
            return min;
        }
        if min == 0 && max == usize::MAX {
            return self.next() as usize;
        }
        let x = self.next() as usize;
        let width = max - min + 1;
        min + (x % width)
    }

    /// Generates a random number with exponential distribution in the range of
    /// [min, max] with a worst case deviation from uniform of 0.5x. Meaning
    /// this will always return uniform at least half the time.
    pub fn rand_exp(&mut self, min: usize, max: usize) -> (r: usize)
        requires
            max >= min,
        ensures
            old(self).exp_disabled ==> (r, final(self).seed) == spec_rand(old(self).seed, min, max),
            !old(self).exp_disabled ==> (r, final(self).seed) == spec_rand_exp(old(self).seed, min, max),
            min <= r <= max,
            final(self).exp_disabled == old(self).exp_disabled,
    {
        if self.exp_disabled {
            return self.rand(min, max);
        }
        if self.rand(0, 1) == 0 {
            self.rand(min, max)
        } else {
            let x = self.rand(min, max);
            self.rand(min, x)
        }
    }
}

} // verus!
