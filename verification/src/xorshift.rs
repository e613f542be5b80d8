//! The xorshift64 step shared by every random number generator of the crate.
use vstd::prelude::*;

verus! {

/// One step of Marsaglia's xorshift64 generator with shifts (13, 17, 43).
pub open spec fn xorshift64(s: u64) -> u64 {
    let a = s ^ (s << 13u64);
    let b = a ^ (a >> 17u64);
    b ^ (b << 43u64)
}

/// The state reached from `s` after `n` steps.
pub open spec fn xorshift64_iter(s: u64, n: nat) -> u64
    decreases n,
{
    if n == 0 {
        s
    } else {
        xorshift64(xorshift64_iter(s, (n - 1) as nat))
    }
}

/// Computes one xorshift64 step.
pub fn xorshift64_step(s: u64) -> (r: u64)
    ensures
        r == xorshift64(s),
{
    let mut x = s;
    x ^= x << 13u64;
    x ^= x >> 17u64;
    x ^= x << 43u64;
    x
}

/// The zero state is a fixed point of the generator: a generator seeded
/// with zero produces zero forever.
pub proof fn lemma_zero_is_fixed_point()
    ensures
        xorshift64(0) == 0,
{
    assert(((0u64 ^ (0u64 << 13u64)) ^ ((0u64 ^ (0u64 << 13u64)) >> 17u64)) == 0u64) by (bit_vector);
    assert(0u64 ^ (0u64 << 43u64) == 0u64) by (bit_vector);
}

/// A nonzero state never becomes zero: every step of the generator maps a
/// nonzero state to a nonzero state.
pub proof fn lemma_nonzero_stays_nonzero(s: u64)
    requires
        s != 0,
    ensures
        xorshift64(s) != 0,
{
    let a = s ^ (s << 13u64);
    let b = a ^ (a >> 17u64);
    assert(s != 0 ==> (s ^ (s << 13u64)) != 0) by (bit_vector);
    assert(a != 0 ==> (a ^ (a >> 17u64)) != 0) by (bit_vector);
    assert(b != 0 ==> (b ^ (b << 43u64)) != 0) by (bit_vector);
}

} // verus!
