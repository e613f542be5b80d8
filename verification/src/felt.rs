//! Felt252 values, held as the 32 big-endian bytes of their canonical
//! representative, and the field operations of `starknet_types_core::Felt`.
use vstd::prelude::*;
use starknet_types_core::felt::Felt;

verus! {

/// A felt252 as the 32 big-endian bytes of its value.
pub type FeltBytes = [u8; 32];

/// The Stark field prime, 2^251 + 17 * 2^192 + 1.
pub open spec fn felt_prime() -> nat {
    0x800000000000011000000000000000000000000000000000000000000000001nat
}

/// The unsigned integer whose big-endian bytes are `s`.
pub open spec fn be_value(s: Seq<u8>) -> nat
    decreases s.len(),
{
    if s.len() == 0 {
        0
    } else {
        be_value(s.drop_last()) * 256 + s.last() as nat
    }
}

/// The felt252 that the big-endian bytes `s` denote: their value modulo the
/// field prime.
pub open spec fn felt_of(s: Seq<u8>) -> nat {
    be_value(s) % felt_prime()
}

/// `Felt::from_bytes_be` reads the 32 big-endian bytes as an integer and
/// reduces it modulo the field prime; `Felt::to_bytes_be` writes the
/// canonical representative back as 32 big-endian bytes. The result holds
/// the value of `bytes` modulo the prime.
#[verifier::external_body]
pub(crate) fn felt_reduce(bytes: &FeltBytes) -> (r: FeltBytes)
    ensures
        be_value(r@) == felt_of(bytes@),
{
    Felt::from_bytes_be(bytes).to_bytes_be()
}

/// `Felt::from(i64)` maps an integer to its residue modulo the field prime
/// (negative values wrap around the prime).
#[verifier::external_body]
pub(crate) fn felt_from_i64(v: i64) -> (r: FeltBytes)
    ensures
        be_value(r@) == (v as int) % (felt_prime() as int),
{
    Felt::from(v).to_bytes_be()
}

/// `Felt + Felt` is field addition: the sum of the two values modulo the
/// field prime.
#[verifier::external_body]
pub(crate) fn felt_add(a: &FeltBytes, b: &FeltBytes) -> (r: FeltBytes)
    ensures
        be_value(r@) == (be_value(a@) + be_value(b@)) % felt_prime(),
{
    (Felt::from_bytes_be(a) + Felt::from_bytes_be(b)).to_bytes_be()
}

/// `Felt - Felt` is field subtraction: the difference of the two values
/// modulo the field prime.
#[verifier::external_body]
pub(crate) fn felt_sub(a: &FeltBytes, b: &FeltBytes) -> (r: FeltBytes)
    ensures
        be_value(r@) == (be_value(a@) - be_value(b@)) % (felt_prime() as int),
{
    (Felt::from_bytes_be(a) - Felt::from_bytes_be(b)).to_bytes_be()
}

/// The 32 bytes of a vector that holds exactly 32 bytes.
pub fn to_felt_bytes(v: &Vec<u8>) -> (r: FeltBytes)
    requires
        v.len() == 32,
    ensures
        r@ == v@,
{
    let mut a: FeltBytes = [0u8; 32];
    let mut i: usize = 0;
    while i < 32
        invariant
            v.len() == 32,
            i <= 32,
            forall|j: int| 0 <= j < i ==> a@[j] == v@[j],
        decreases 32 - i,
    {
        a[i] = v[i];
        i += 1;
    }
    assert(a@ =~= v@);
    a
}

/// The bytes of a felt as a vector.
pub fn felt_bytes_vec(a: &FeltBytes) -> (r: Vec<u8>)
    ensures
        r@ == a@,
{
    let mut r: Vec<u8> = Vec::new();
    let mut i: usize = 0;
    while i < 32
        invariant
            i <= 32,
            r@ == a@.subrange(0, i as int),
        decreases 32 - i,
    {
        r.push(a[i]);
        i += 1;
    }
    assert(a@.subrange(0, 32) =~= a@);
    r
}

} // verus!

verus! {

/// `Felt::from(u128)` is the felt whose value is the integer itself (every
/// `u128` is below the field prime).
#[verifier::external_body]
pub(crate) fn felt_from_u128(v: u128) -> (r: FeltBytes)
    ensures
        be_value(r@) == v as nat % felt_prime(),
{
    Felt::from(v).to_bytes_be()
}

/// 256 to the power `n`.
pub open spec fn pow256(n: nat) -> nat
    decreases n,
{
    if n == 0 {
        1
    } else {
        256 * pow256((n - 1) as nat)
    }
}

/// A big-endian byte sequence is below 256 to the power of its length.
pub proof fn lemma_be_value_bound(s: Seq<u8>)
    ensures
        be_value(s) < pow256(s.len()),
    decreases s.len(),
{
    if s.len() > 0 {
        lemma_be_value_bound(s.drop_last());
        let a = be_value(s.drop_last());
        let p = pow256((s.len() - 1) as nat);
        assert(a * 256 + (s.last() as nat) < p * 256) by (nonlinear_arith)
            requires
                a < p,
                (s.last() as nat) < 256,
        ;
    }
}

/// Reading one more byte multiplies the value read so far by 256.
pub proof fn lemma_be_value_extend(s: Seq<u8>, a: int, i: int)
    requires
        0 <= a <= i < s.len(),
    ensures
        be_value(s.subrange(a, i + 1)) == be_value(s.subrange(a, i)) * 256 + s[i] as nat,
{
    assert(s.subrange(a, i + 1).drop_last() =~= s.subrange(a, i));
}

/// The value of the last `n` bytes of a felt, for `n` at most 16.
pub fn low_bytes_value(bytes: &FeltBytes, n: usize) -> (r: u128)
    requires
        n <= 16,
    ensures
        r as nat == be_value(bytes@.subrange(32 - n, 32)),
{
    let start = 32 - n;
    let mut acc: u128 = 0;
    let mut i = start;
    proof {
        reveal_with_fuel(pow256, 17);
        assert(pow256(16) == 0x100000000000000000000000000000000nat);
    }
    while i < 32
        invariant
            start == 32 - n,
            n <= 16,
            start <= i <= 32,
            acc as nat == be_value(bytes@.subrange(start as int, i as int)),
            pow256(16) == 0x100000000000000000000000000000000nat,
        decreases 32 - i,
    {
        proof {
            lemma_be_value_extend(bytes@, start as int, i as int);
            lemma_be_value_bound(bytes@.subrange(start as int, i as int + 1));
            lemma_pow256_monotone((i + 1 - start) as nat, 16);
        }
        acc = acc * 256 + bytes[i] as u128;
        i += 1;
    }
    acc
}

/// The value of a byte string is that of its first bytes times 256 to the
/// power of the number of its last `k` bytes, plus the value of those.
pub proof fn lemma_be_value_split(s: Seq<u8>, k: nat)
    requires
        k <= s.len(),
    ensures
        be_value(s) == be_value(s.subrange(0, s.len() - k)) * pow256(k) + be_value(s.subrange(s.len() - k, s.len() as int)),
    decreases k,
{
    let n = s.len() as int;
    if k == 0 {
        assert(s.subrange(0, n) =~= s);
        assert(s.subrange(n, n) =~= Seq::<u8>::empty());
        assert(pow256(0) == 1);
        assert(be_value(s.subrange(n, n)) == 0);
        assert(be_value(s.subrange(0, n)) == be_value(s));
        assert(be_value(s) == be_value(s.subrange(0, s.len() - k)) * pow256(k) + be_value(s.subrange(s.len() - k, s.len() as int)));
    } else {
        let d = s.drop_last();
        lemma_be_value_split(d, (k - 1) as nat);
        assert(d.subrange(0, d.len() - (k - 1)) =~= s.subrange(0, n - k));
        assert(d.subrange(d.len() - (k - 1), d.len() as int) =~= s.subrange(n - k, n - 1));
        lemma_be_value_extend(s, n - k, n - 1);
        assert(s.subrange(n - k, n - 1 + 1) =~= s.subrange(n - k, n));
        let a = be_value(s.subrange(0, n - k)) as int;
        let p = pow256((k - 1) as nat) as int;
        let b = be_value(s.subrange(n - k, n - 1)) as int;
        let c = s.last() as int;
        assert(be_value(s) == be_value(d) * 256 + c);
        assert(be_value(d) == a * p + b);
        assert(be_value(s.subrange(n - k, n)) == b * 256 + c);
        assert(pow256(k) == 256 * p);
        assert((a * p + b) * 256 + c == a * (256 * p) + (b * 256 + c)) by (nonlinear_arith);
        assert(be_value(s) == a * pow256(k) + be_value(s.subrange(n - k, n)));
        assert(be_value(s) == be_value(s.subrange(0, s.len() - k)) * pow256(k) + be_value(s.subrange(s.len() - k, s.len() as int)));
    }
}

/// The value of the last `k` bytes of a byte string is the value of the
/// whole string modulo 256 to the power `k`.
pub proof fn lemma_be_value_low_bytes(s: Seq<u8>, k: nat)
    requires
        k <= s.len(),
    ensures
        be_value(s.subrange(s.len() - k, s.len() as int)) == be_value(s) % pow256(k),
{
    lemma_be_value_split(s, k);
    let low = s.subrange(s.len() - k, s.len() as int);
    lemma_be_value_bound(low);
    assert(low.len() == k);
    let m = pow256(k) as int;
    let a = be_value(s.subrange(0, s.len() - k)) as int;
    assert(m > 0) by {
        lemma_pow256_positive(k);
    }
    assert(a * m == m * a) by (nonlinear_arith);
    vstd::arithmetic::div_mod::lemma_mod_multiples_vanish(a, be_value(low) as int, m);
    vstd::arithmetic::div_mod::lemma_small_mod(be_value(low), m as nat);
}

/// `pow256` is positive.
pub proof fn lemma_pow256_positive(n: nat)
    ensures
        pow256(n) > 0,
    decreases n,
{
    if n > 0 {
        lemma_pow256_positive((n - 1) as nat);
    }
}

/// `pow256` grows with its exponent.
pub proof fn lemma_pow256_monotone(a: nat, b: nat)
    requires
        a <= b,
    ensures
        pow256(a) <= pow256(b),
    decreases b,
{
    if a < b {
        lemma_pow256_monotone(a, (b - 1) as nat);
    }
}

} // verus!
