//! Random number generator implementation using xorshift64.
use vstd::prelude::*;
use core::ops::RangeInclusive;
use crate::xorshift::{xorshift64, xorshift64_step};

verus! {

/// `RangeInclusive::start` returns the range's lower bound.
pub assume_specification<Idx>[ RangeInclusive::<Idx>::start ](r: &RangeInclusive<Idx>) -> (ret: &Idx)
    ensures
        *ret == r@.start,
;

/// `RangeInclusive::end` returns the range's upper bound.
pub assume_specification<Idx>[ RangeInclusive::<Idx>::end ](r: &RangeInclusive<Idx>) -> (ret: &Idx)
    ensures
        *ret == r@.end,
;

/// Random number generator implementation using xorshift64
pub struct Rng {
    /// Internal xorshift seed
    seed: u64,
}

impl View for Rng {
    type V = u64;

    /// The generator's state.
    closed spec fn view(&self) -> u64 {
        self.seed
    }
}

/// The value `gen_range` draws for the inclusive range `[start, end]` when
/// the generator's next state is `next`.
pub open spec fn spec_in_range(next: u64, start: usize, end: usize) -> usize {
    (start + (next as usize) % ((end - start + 1) as usize)) as usize
}

impl Rng {
    /// Creates a RNG with a fixed `seed` value
    pub fn seeded(seed: u64) -> (ret: Self)
        ensures
            ret@ == seed,
    {
        Rng { seed }
    }

    /// Get a random 64-bit number using xorshift: the generator advances one
    /// step and returns its new state.
    pub fn rand(&mut self) -> (r: u64)
        ensures
            final(self)@ == xorshift64(old(self)@),
            r == final(self)@,
    {
        self.seed = xorshift64_step(self.seed);
        self.seed
    }

    /// Get a random usize number using xorshift
    pub fn rand_usize(&mut self) -> (r: usize)
        ensures
            final(self)@ == xorshift64(old(self)@),
            r == final(self)@ as usize,
    {
        self.rand() as usize
    }

    /// Generate a random number in the range [start, end]
    pub fn gen_range(&mut self, range: RangeInclusive<usize>) -> (r: usize)
        requires
            range@.start <= range@.end,
            range@.end - range@.start < usize::MAX,
        ensures
            final(self)@ == xorshift64(old(self)@),
            r == spec_in_range(final(self)@, range@.start, range@.end),
            range@.start <= r <= range@.end,
    {
        let start = *range.start();
        let end = *range.end();
        let x = self.rand_usize();
        let width = end - start + 1;
        let off = x % width;
        start + off
    }
}

} // verus!
