//! Mutations of a felt252 parameter: arithmetic on its value and byte-level
//! strategies on its 32 big-endian bytes.
use vstd::prelude::*;
use rand::rngs::ThreadRng;
use rand::Rng as _;
use crate::felt::{
    be_value, felt_add, felt_from_i64, felt_of, felt_prime, felt_reduce, felt_sub, felt_bytes_vec, to_felt_bytes,
    FeltBytes,
};

verus! {

#[verifier::external_type_specification]
#[verifier::external_body]
pub struct ExThreadRng(ThreadRng);

/// `rand::thread_rng` returns a handle to the thread-local generator.
#[verifier::external_body]
fn thread_rng() -> ThreadRng {
    rand::thread_rng()
}

/// `Rng::gen_range(low..high)` samples a value of the half-open range; it
/// panics when the range is empty, which the precondition rules out.
#[verifier::external_body]
fn gen_range_usize(rng: &mut ThreadRng, low: usize, high: usize) -> (r: usize)
    requires
        low < high,
    ensures
        low <= r < high,
{
    rng.gen_range(low..high)
}

/// `Rng::gen::<u8>()` samples an arbitrary byte.
#[verifier::external_body]
fn gen_byte(rng: &mut ThreadRng) -> u8 {
    rng.gen::<u8>()
}

/// The number of bytes of a felt.
pub const FELT_LEN: usize = 32;

/// Cuts a byte sequence to 32 bytes, or pads it with zeros up to 32 bytes.
pub open spec fn fit32(s: Seq<u8>) -> Seq<u8> {
    if s.len() >= 32 {
        s.take(32)
    } else {
        s + Seq::new((32 - s.len()) as nat, |i: int| 0u8)
    }
}

/// `s` with bit `bit % 8` of byte `bit / 8` flipped.
pub open spec fn spec_flip_bit(s: Seq<u8>, bit: int) -> Seq<u8> {
    s.update(bit / 8, s[bit / 8] ^ (1u8 << ((bit % 8) as u8)))
}

/// `s` after swapping the bytes at `src + i` and `dst + i` for `i` from 0
/// up to `n - 1`, in that order.
pub open spec fn spec_swap_ranges(s: Seq<u8>, src: int, dst: int, n: nat) -> Seq<u8>
    decreases n,
{
    if n == 0 {
        s
    } else {
        let p = spec_swap_ranges(s, src, dst, (n - 1) as nat);
        let i = n - 1;
        p.update(src + i, p[dst + i]).update(dst + i, p[src + i])
    }
}

/// `s` after copying the byte at `src + i` to `dst + i` for `i` from 0 up
/// to `n - 1`, in that order.
pub open spec fn spec_copy_ranges(s: Seq<u8>, src: int, dst: int, n: nat) -> Seq<u8>
    decreases n,
{
    if n == 0 {
        s
    } else {
        let p = spec_copy_ranges(s, src, dst, (n - 1) as nat);
        p.update(dst + n - 1, p[src + n - 1])
    }
}

/// The `n` bytes at `src` inserted at `dst`, cut back to 32 bytes.
pub open spec fn spec_inter_splice(s: Seq<u8>, src: int, dst: int, n: int) -> Seq<u8> {
    fit32(s.take(dst) + s.subrange(src, src + n) + s.skip(dst))
}

/// The first bytes of `s` overwritten with the magic value `m`.
pub open spec fn spec_magic_overwrite(s: Seq<u8>, m: Seq<u8>) -> Seq<u8> {
    let l = if m.len() < 32 { m.len() as int } else { 32 };
    m.take(l) + s.skip(l)
}

/// The magic value `m` inserted at `offset`, cut back to 32 bytes.
pub open spec fn spec_magic_insert(s: Seq<u8>, m: Seq<u8>, offset: int) -> Seq<u8> {
    fit32(s.take(offset) + m + s.skip(offset))
}

/// The bytes from `offset` on overwritten with `fill`.
pub open spec fn spec_random_overwrite(s: Seq<u8>, offset: int, fill: Seq<u8>) -> Seq<u8> {
    s.take(offset) + fill + s.skip(offset + fill.len())
}

/// `amount` copies of `val` inserted at `offset`, cut back to 32 bytes.
pub open spec fn spec_repeat_insert(s: Seq<u8>, offset: int, amount: nat, val: u8) -> Seq<u8> {
    fit32(s.take(offset) + Seq::new(amount, |i: int| val) + s.skip(offset))
}

/// The `amount - 1` bytes after `offset` overwritten with the byte at `offset`.
pub open spec fn spec_repeat_overwrite(s: Seq<u8>, offset: int, amount: int) -> Seq<u8> {
    s.take(offset + 1) + Seq::new((amount - 1) as nat, |i: int| s[offset]) + s.skip(offset + amount)
}

/// Flips one bit of the felt's bytes.
pub fn flip_bit_bytes(bytes: &FeltBytes, bit_index: usize) -> (r: FeltBytes)
    requires
        bit_index < 256,
    ensures
        r@ == spec_flip_bit(bytes@, bit_index as int),
{
    let mut b = *bytes;
    let shift: u8 = (bit_index % 8) as u8;
    b[bit_index / 8] ^= 1u8 << shift;
    b
}

/// Swaps two ranges of `len` bytes, one position at a time.
pub fn swap_bytes(bytes: &FeltBytes, src: usize, dst: usize, len: usize) -> (r: FeltBytes)
    requires
        src + len <= FELT_LEN,
        dst + len <= FELT_LEN,
    ensures
        r@ == spec_swap_ranges(bytes@, src as int, dst as int, len as nat),
{
    let mut b = *bytes;
    let mut i: usize = 0;
    while i < len
        invariant
            src + len <= 32,
            dst + len <= 32,
            i <= len,
            b@ == spec_swap_ranges(bytes@, src as int, dst as int, i as nat),
        decreases len - i,
    {
        proof {
            reveal_with_fuel(spec_swap_ranges, 2);
        }
        let x = b[src + i];
        let y = b[dst + i];
        b[src + i] = y;
        b[dst + i] = x;
        i += 1;
    }
    b
}

/// Copies `len` bytes from `src` to `dst`, one position at a time.
pub fn copy_bytes(bytes: &FeltBytes, src: usize, dst: usize, len: usize) -> (r: FeltBytes)
    requires
        src + len <= FELT_LEN,
        dst + len <= FELT_LEN,
    ensures
        r@ == spec_copy_ranges(bytes@, src as int, dst as int, len as nat),
{
    let mut b = *bytes;
    let mut i: usize = 0;
    while i < len
        invariant
            src + len <= 32,
            dst + len <= 32,
            i <= len,
            b@ == spec_copy_ranges(bytes@, src as int, dst as int, i as nat),
        decreases len - i,
    {
        proof {
            reveal_with_fuel(spec_copy_ranges, 2);
        }
        let x = b[src + i];
        b[dst + i] = x;
        i += 1;
    }
    b
}

/// Appends the bytes `bytes[from..to]` to `out`.
fn extend_from_range(out: &mut Vec<u8>, bytes: &FeltBytes, from: usize, to: usize)
    requires
        from <= to <= FELT_LEN,
    ensures
        final(out)@ == old(out)@ + bytes@.subrange(from as int, to as int),
{
    let mut i = from;
    while i < to
        invariant
            from <= i <= to <= 32,
            out@ == old(out)@ + bytes@.subrange(from as int, i as int),
        decreases to - i,
    {
        out.push(bytes[i]);
        assert(bytes@.subrange(from as int, i + 1) =~= bytes@.subrange(from as int, i as int).push(bytes@[i as int]));
        i += 1;
    }
}

/// Appends `amount` copies of `val` to `out`.
fn extend_repeat(out: &mut Vec<u8>, val: u8, amount: usize)
    ensures
        final(out)@ == old(out)@ + Seq::new(amount as nat, |i: int| val),
{
    let mut i: usize = 0;
    while i < amount
        invariant
            i <= amount,
            out@ == old(out)@ + Seq::new(i as nat, |k: int| val),
        decreases amount - i,
    {
        out.push(val);
        assert(Seq::new((i + 1) as nat, |k: int| val) =~= Seq::new(i as nat, |k: int| val).push(val));
        i += 1;
    }
}

/// Cuts a byte vector to 32 bytes or pads it with zeros up to 32 bytes.
fn fit_to_felt(input: Vec<u8>) -> (r: FeltBytes)
    ensures
        r@ == fit32(input@),
{
    let mut v = input;
    if v.len() > 32 {
        v.truncate(32);
    } else if v.len() < 32 {
        let pad = 32 - v.len();
        extend_repeat(&mut v, 0u8, pad);
    }
    assert(v@ =~= fit32(input@));
    to_felt_bytes(&v)
}

/// Inserts the `len` bytes at `src` at position `dst`, keeping 32 bytes.
pub fn inter_splice_bytes(bytes: &FeltBytes, src: usize, dst: usize, len: usize) -> (r: FeltBytes)
    requires
        src + len <= FELT_LEN,
        dst <= FELT_LEN,
    ensures
        r@ == spec_inter_splice(bytes@, src as int, dst as int, len as int),
{
    let mut v: Vec<u8> = Vec::new();
    extend_from_range(&mut v, bytes, 0, dst);
    extend_from_range(&mut v, bytes, src, src + len);
    extend_from_range(&mut v, bytes, dst, 32);
    assert(bytes@.subrange(0, dst as int) =~= bytes@.take(dst as int));
    assert(bytes@.subrange(dst as int, 32) =~= bytes@.skip(dst as int));
    fit_to_felt(v)
}

/// Overwrites the first bytes with a magic value.
pub fn magic_overwrite_bytes(bytes: &FeltBytes, magic: &Vec<u8>) -> (r: FeltBytes)
    ensures
        r@ == spec_magic_overwrite(bytes@, magic@),
{
    let len = if magic.len() < 32 { magic.len() } else { 32 };
    let mut b = *bytes;
    let mut i: usize = 0;
    while i < len
        invariant
            len <= 32,
            len <= magic.len(),
            i <= len,
            b@ == magic@.take(i as int) + bytes@.skip(i as int),
        decreases len - i,
    {
        b[i] = magic[i];
        assert(b@ =~= magic@.take(i + 1) + bytes@.skip(i + 1));
        i += 1;
    }
    b
}

/// Inserts a magic value at `offset`, keeping 32 bytes.
pub fn magic_insert_bytes(bytes: &FeltBytes, magic: &Vec<u8>, offset: usize) -> (r: FeltBytes)
    requires
        offset <= FELT_LEN,
    ensures
        r@ == spec_magic_insert(bytes@, magic@, offset as int),
{
    let mut v: Vec<u8> = Vec::new();
    extend_from_range(&mut v, bytes, 0, offset);
    let mut i: usize = 0;
    while i < magic.len()
        invariant
            i <= magic.len(),
            v@ == bytes@.subrange(0, offset as int) + magic@.take(i as int),
        decreases magic.len() - i,
    {
        v.push(magic[i]);
        assert(magic@.take(i + 1) =~= magic@.take(i as int).push(magic@[i as int]));
        i += 1;
    }
    extend_from_range(&mut v, bytes, offset, 32);
    assert(bytes@.subrange(0, offset as int) =~= bytes@.take(offset as int));
    assert(bytes@.subrange(offset as int, 32) =~= bytes@.skip(offset as int));
    assert(magic@.take(magic.len() as int) =~= magic@);
    fit_to_felt(v)
}

/// Overwrites the bytes from `offset` on with `fill`.
pub fn random_overwrite_bytes(bytes: &FeltBytes, offset: usize, fill: &Vec<u8>) -> (r: FeltBytes)
    requires
        offset + fill.len() <= FELT_LEN,
    ensures
        r@ == spec_random_overwrite(bytes@, offset as int, fill@),
{
    let mut b = *bytes;
    let mut i: usize = 0;
    while i < fill.len()
        invariant
            offset + fill.len() <= 32,
            i <= fill.len(),
            b@ == bytes@.take(offset as int) + fill@.take(i as int) + bytes@.skip(offset + i),
        decreases fill.len() - i,
    {
        b[offset + i] = fill[i];
        assert(b@ =~= bytes@.take(offset as int) + fill@.take(i + 1) + bytes@.skip(offset + i + 1));
        i += 1;
    }
    assert(fill@.take(fill.len() as int) =~= fill@);
    b
}

/// Inserts `amount` copies of `val` at `offset`, keeping 32 bytes.
pub fn repeat_insert_bytes(bytes: &FeltBytes, offset: usize, amount: usize, val: u8) -> (r: FeltBytes)
    requires
        offset <= FELT_LEN,
    ensures
        r@ == spec_repeat_insert(bytes@, offset as int, amount as nat, val),
{
    let mut v: Vec<u8> = Vec::new();
    extend_from_range(&mut v, bytes, 0, offset);
    extend_repeat(&mut v, val, amount);
    extend_from_range(&mut v, bytes, offset, 32);
    assert(bytes@.subrange(0, offset as int) =~= bytes@.take(offset as int));
    assert(bytes@.subrange(offset as int, 32) =~= bytes@.skip(offset as int));
    fit_to_felt(v)
}

/// Repeats the byte at `offset` over the `amount - 1` bytes after it.
pub fn repeat_overwrite_bytes(bytes: &FeltBytes, offset: usize, amount: usize) -> (r: FeltBytes)
    requires
        offset < FELT_LEN,
        1 <= amount,
        offset + amount <= FELT_LEN,
    ensures
        r@ == spec_repeat_overwrite(bytes@, offset as int, amount as int),
{
    let mut b = *bytes;
    let val = b[offset];
    let mut i = offset + 1;
    while i < offset + amount
        invariant
            offset < 32,
            offset + amount <= 32,
            offset + 1 <= i <= offset + amount,
            val == bytes@[offset as int],
            b@ == bytes@.take(offset + 1) + Seq::new((i - offset - 1) as nat, |k: int| val) + bytes@.skip(i as int),
        decreases offset + amount - i,
    {
        b[i] = val;
        assert(b@ =~= bytes@.take(offset + 1) + Seq::new((i + 1 - offset - 1) as nat, |k: int| val) + bytes@.skip(i + 1));
        i += 1;
    }
    assert(b@ =~= spec_repeat_overwrite(bytes@, offset as int, amount as int));
    b
}

} // verus!

verus! {

/// `lo <= x < hi`.
pub open spec fn in_range(x: int, lo: int, hi: int) -> bool {
    lo <= x < hi
}

/// `r` is `f` plus a value in `[lo, hi)`, in the field.
pub open spec fn is_shift_by(f: Seq<u8>, r: Seq<u8>, lo: int, hi: int) -> bool {
    exists|k: int| #[trigger] in_range(k, lo, hi) && be_value(r) == (be_value(f) + k) % (felt_prime() as int)
}

/// `r` is the felt the big-endian bytes `raw` denote (their value reduced
/// modulo the field prime).
pub open spec fn reduces_to(raw: Seq<u8>, r: Seq<u8>) -> bool {
    be_value(r) == felt_of(raw)
}

/// `r` is `f` with one of its 252 first bit positions (bit `i % 8` of byte
/// `i / 8`) flipped, read back as a felt.
pub open spec fn is_bit_flip(f: Seq<u8>, r: Seq<u8>) -> bool {
    exists|bit: int| #[trigger] in_range(bit, 0, 252) && reduces_to(spec_flip_bit(f, bit), r)
}

/// The ranges the original strategies draw: two positions in the felt and a
/// length that fits after both.
pub open spec fn range_params(src: int, dst: int, n: int) -> bool {
    &&& 0 <= src < 32
    &&& 0 <= dst < 32
    &&& 1 <= n
    &&& src + n <= 32
    &&& dst + n <= 32
}

/// `r` is `f` with two ranges swapped, read back as a felt.
pub open spec fn is_swap(f: Seq<u8>, r: Seq<u8>) -> bool {
    exists|src: int, dst: int, n: nat| range_params(src, dst, n as int) && reduces_to(#[trigger] spec_swap_ranges(f, src, dst, n), r)
}

/// `r` is `f` with a range copied over another, read back as a felt.
pub open spec fn is_copy(f: Seq<u8>, r: Seq<u8>) -> bool {
    exists|src: int, dst: int, n: nat| range_params(src, dst, n as int) && reduces_to(#[trigger] spec_copy_ranges(f, src, dst, n), r)
}

/// `r` is `f` with a range spliced in at another position, read back as a
/// felt.
pub open spec fn is_splice(f: Seq<u8>, r: Seq<u8>) -> bool {
    exists|src: int, dst: int, n: int| range_params(src, dst, n) && reduces_to(#[trigger] spec_inter_splice(f, src, dst, n), r)
}

/// `r` is `f` with its first bytes overwritten by one of the magic values,
/// read back as a felt (or `f` itself when there are none).
pub open spec fn is_magic_overwrite(f: Seq<u8>, r: Seq<u8>, magic: Seq<Seq<u8>>) -> bool {
    if magic.len() == 0 {
        r == f
    } else {
        exists|i: int| #[trigger] in_range(i, 0, magic.len() as int) && reduces_to(spec_magic_overwrite(f, magic[i]), r)
    }
}

/// `r` is `f` with one of the magic values inserted, read back as a felt
/// (or `f` itself when there are none).
pub open spec fn is_magic_insert(f: Seq<u8>, r: Seq<u8>, magic: Seq<Seq<u8>>) -> bool {
    if magic.len() == 0 {
        r == f
    } else {
        exists|i: int, off: int| 0 <= i < magic.len() && 0 <= off <= 32 && reduces_to(#[trigger] spec_magic_insert(f, magic[i], off), r)
    }
}

/// `r` is `f` with a range from some offset on overwritten by other bytes,
/// read back as a felt.
pub open spec fn is_random_overwrite(f: Seq<u8>, r: Seq<u8>) -> bool {
    exists|off: int, fill: Seq<u8>| 0 <= off < 32 && 1 <= fill.len() && off + fill.len() <= 32 && reduces_to(#[trigger] spec_random_overwrite(f, off, fill), r)
}

/// `r` is `f` with up to `max_input_size - 32` copies of one byte inserted,
/// read back as a felt.
pub open spec fn is_random_insert(f: Seq<u8>, r: Seq<u8>, max_input_size: int) -> bool {
    exists|off: int, amount: nat, val: u8| 0 <= off <= 32 && amount <= max_input_size - 32 && reduces_to(#[trigger] spec_repeat_insert(f, off, amount, val), r)
}

/// `r` is `f` with one of its bytes repeated over the bytes after it, read
/// back as a felt.
pub open spec fn is_repeat_overwrite(f: Seq<u8>, r: Seq<u8>) -> bool {
    exists|off: int, amount: int| 0 <= off < 32 && 1 <= amount && off + amount <= 32 && reduces_to(#[trigger] spec_repeat_overwrite(f, off, amount), r)
}

/// `r` is `f` with one of its bytes inserted again up to
/// `max_input_size - 32` times next to itself, read back as a felt.
pub open spec fn is_repeat_insert(f: Seq<u8>, r: Seq<u8>, max_input_size: int) -> bool {
    exists|off: int, amount: nat| 0 <= off < 32 && 1 <= amount <= max_input_size - 32 && reduces_to(#[trigger] spec_repeat_insert(f, off, amount, f[off]), r)
}

/// `r` is a result one call of `mutate` can give for `f`: one of the
/// strategies, or `f` itself.
pub open spec fn is_mutation(f: Seq<u8>, r: Seq<u8>, magic: Seq<Seq<u8>>, max_input_size: int) -> bool {
    ||| r == f
    ||| is_shift_by(f, r, 1, 10)
    ||| is_shift_by(f, r, -9, 0)
    ||| is_bit_flip(f, r)
    ||| is_shift_by(f, r, 1, 2)
    ||| is_shift_by(f, r, -1, 0)
    ||| is_shift_by(f, r, -100, 100)
    ||| is_swap(f, r)
    ||| is_copy(f, r)
    ||| is_splice(f, r)
    ||| is_magic_overwrite(f, r, magic)
    ||| is_magic_insert(f, r, magic)
    ||| is_random_overwrite(f, r)
    ||| is_random_insert(f, r, max_input_size)
    ||| is_repeat_overwrite(f, r)
    ||| is_repeat_insert(f, r, max_input_size)
}

/// A mutation of a felt below the field prime gives a felt below the field
/// prime: every strategy either reduces its result modulo the prime or
/// returns the felt unchanged.
pub proof fn lemma_mutation_keeps_felts_canonical(f: Seq<u8>, r: Seq<u8>, magic: Seq<Seq<u8>>, max_input_size: int)
    requires
        is_mutation(f, r, magic, max_input_size),
        be_value(f) < felt_prime(),
    ensures
        be_value(r) < felt_prime(),
{
    let p = felt_prime() as int;
    assert forall|x: int| #[trigger] (x % p) < p by {
        vstd::arithmetic::div_mod::lemma_mod_bound(x, p);
    }
}

/// The contents of the magic value table.
pub open spec fn magic_view(m: Seq<Vec<u8>>) -> Seq<Seq<u8>> {
    m.map_values(|v: Vec<u8>| v@)
}

/// The felt the big-endian bytes `raw` denote: their value reduced modulo
/// the field prime.
pub fn reduce_felt(raw: &FeltBytes) -> (r: FeltBytes)
    ensures
        reduces_to(raw@, r@),
{
    felt_reduce(raw)
}

/// `felt + k`, in the field.
pub fn shift_felt(felt: &FeltBytes, k: i64) -> (r: FeltBytes)
    ensures
        be_value(r@) == (be_value(felt@) + k) % (felt_prime() as int),
{
    let d = felt_from_i64(k);
    let r = felt_add(felt, &d);
    proof {
        vstd::arithmetic::div_mod::lemma_add_mod_noop_right(be_value(felt@) as int, k as int, felt_prime() as int);
    }
    r
}

/// `felt - k`, in the field, for a small `k`.
pub fn subtract_felt(felt: &FeltBytes, k: u64) -> (r: FeltBytes)
    requires
        k <= i64::MAX,
    ensures
        be_value(r@) == (be_value(felt@) - k) % (felt_prime() as int),
{
    let d = felt_from_i64(k as i64);
    let r = felt_sub(felt, &d);
    proof {
        vstd::arithmetic::div_mod::lemma_small_mod(k as nat, felt_prime());
    }
    r
}

/// The kind of mutation drawn and the values its strategy drew: sizes and
/// positions in the felt, a magic value's position in the table, bytes.
#[derive(Debug, Clone)]
pub enum Mutation {
    /// Add a value in `[1, 10)`.
    AddSmall(usize),
    /// Subtract a value in `[1, 10)`.
    SubtractSmall(usize),
    /// Flip bit `i % 8` of byte `i / 8`, for `i < 252`.
    FlipBit(usize),
    /// Add one.
    IncByte,
    /// Subtract one.
    DecByte,
    /// Add the draw minus 100, for a draw below 200.
    AddSub(usize),
    /// Swap two ranges: source, destination, length.
    Swap(usize, usize, usize),
    /// Copy a range over another: source, destination, length.
    Copy(usize, usize, usize),
    /// Splice a range in at another position: source, destination, length.
    Splice(usize, usize, usize),
    /// Overwrite the first bytes with the magic value at this position of
    /// the table (`None` when the table is empty).
    MagicOverwrite(Option<usize>),
    /// Insert the magic value at this position of the table at this offset
    /// (`None` when the table is empty).
    MagicInsert(Option<(usize, usize)>),
    /// Overwrite the bytes from an offset on with these bytes.
    RandomOverwrite(usize, Vec<u8>),
    /// Insert copies of a byte at an offset: offset, number of copies, byte.
    RandomInsert(usize, usize, u8),
    /// Repeat the byte at an offset over the bytes after it: offset, length.
    RepeatOverwrite(usize, usize),
    /// Insert copies of the byte at an offset next to it: offset, copies.
    RepeatInsert(usize, usize),
    /// Keep the felt as it is (a drawn kind with no strategy).
    Keep,
}

/// Whether the values of `m` are in the ranges its strategy draws from, for
/// a table of `magic_len` magic values and insertions bounded by
/// `max_input_size` bytes.
pub open spec fn mutation_valid(m: Mutation, magic_len: int, max_input_size: int) -> bool {
    match m {
        Mutation::AddSmall(k) => 1 <= k < 10,
        Mutation::SubtractSmall(k) => 1 <= k < 10,
        Mutation::FlipBit(b) => b < 252,
        Mutation::IncByte => true,
        Mutation::DecByte => true,
        Mutation::AddSub(d) => d < 200,
        Mutation::Swap(s, d, n) => range_params(s as int, d as int, n as int),
        Mutation::Copy(s, d, n) => range_params(s as int, d as int, n as int),
        Mutation::Splice(s, d, n) => range_params(s as int, d as int, n as int),
        Mutation::MagicOverwrite(o) => match o {
            None => magic_len == 0,
            Some(i) => i < magic_len,
        },
        Mutation::MagicInsert(o) => match o {
            None => magic_len == 0,
            Some((i, off)) => i < magic_len && off <= 32,
        },
        Mutation::RandomOverwrite(off, fill) => off < 32 && 1 <= fill@.len() && off + fill@.len() <= 32,
        Mutation::RandomInsert(off, amount, val) => off <= 32 && amount <= max_input_size - 32,
        Mutation::RepeatOverwrite(off, amount) => off < 32 && 1 <= amount && off + amount <= 32,
        Mutation::RepeatInsert(off, amount) => off < 32 && 1 <= amount <= max_input_size - 32,
        Mutation::Keep => true,
    }
}

/// `r` is what mutation `m` makes of the felt `f`, with the magic values
/// `magic`: the arithmetic strategies shift its value in the field, the
/// byte strategies rewrite its bytes and read them back as a felt.
pub open spec fn applies(f: Seq<u8>, m: Mutation, magic: Seq<Seq<u8>>, r: Seq<u8>) -> bool {
    let p = felt_prime() as int;
    match m {
        Mutation::AddSmall(k) => be_value(r) == (be_value(f) + k) % p,
        Mutation::SubtractSmall(k) => be_value(r) == (be_value(f) - k) % p,
        Mutation::FlipBit(b) => reduces_to(spec_flip_bit(f, b as int), r),
        Mutation::IncByte => be_value(r) == (be_value(f) + 1int) % p,
        Mutation::DecByte => be_value(r) == (be_value(f) - 1) % p,
        Mutation::AddSub(d) => be_value(r) == (be_value(f) + (d - 100)) % p,
        Mutation::Swap(s, d, n) => reduces_to(spec_swap_ranges(f, s as int, d as int, n as nat), r),
        Mutation::Copy(s, d, n) => reduces_to(spec_copy_ranges(f, s as int, d as int, n as nat), r),
        Mutation::Splice(s, d, n) => reduces_to(spec_inter_splice(f, s as int, d as int, n as int), r),
        Mutation::MagicOverwrite(o) => match o {
            None => r == f,
            Some(i) => reduces_to(spec_magic_overwrite(f, magic[i as int]), r),
        },
        Mutation::MagicInsert(o) => match o {
            None => r == f,
            Some((i, off)) => reduces_to(spec_magic_insert(f, magic[i as int], off as int), r),
        },
        Mutation::RandomOverwrite(off, fill) => reduces_to(spec_random_overwrite(f, off as int, fill@), r),
        Mutation::RandomInsert(off, amount, val) => reduces_to(spec_repeat_insert(f, off as int, amount as nat, val), r),
        Mutation::RepeatOverwrite(off, amount) => reduces_to(spec_repeat_overwrite(f, off as int, amount as int), r),
        Mutation::RepeatInsert(off, amount) => reduces_to(spec_repeat_insert(f, off as int, amount as nat, f[off as int]), r),
        Mutation::Keep => r == f,
    }
}

/// The kind of mutation the drawn number `kind` stands for; numbers with
/// no strategy keep the felt.
pub open spec fn kind_of(m: Mutation) -> int {
    match m {
        Mutation::AddSmall(_) => 0,
        Mutation::SubtractSmall(_) => 1,
        Mutation::FlipBit(_) => 2,
        Mutation::IncByte => 3,
        Mutation::DecByte => 4,
        Mutation::AddSub(_) => 6,
        Mutation::Swap(_, _, _) => 7,
        Mutation::Copy(_, _, _) => 8,
        Mutation::Splice(_, _, _) => 9,
        Mutation::MagicOverwrite(_) => 10,
        Mutation::MagicInsert(_) => 11,
        Mutation::RandomOverwrite(_, _) => 12,
        Mutation::RandomInsert(_, _, _) => 13,
        Mutation::RepeatOverwrite(_, _) => 14,
        Mutation::RepeatInsert(_, _) => 15,
        Mutation::Keep => 5,
    }
}

/// This mutator only handle felt252
pub struct Mutator {
    rng: ThreadRng,
    max_input_size: usize,
    magic_values: Vec<Vec<u8>>,
    last_mutation: Mutation,
}

impl Mutator {
    /// The largest number of bytes an insertion may build before the felt
    /// is cut back to 32 bytes.
    pub closed spec fn max_input_size(&self) -> int {
        self.max_input_size as int
    }

    /// The magic values the magic strategies pick from.
    pub closed spec fn magic(&self) -> Seq<Seq<u8>> {
        magic_view(self.magic_values@)
    }

    /// The mutation the last call of `mutate` drew and applied.
    pub closed spec fn last(&self) -> Mutation {
        self.last_mutation
    }

    /// Insertions can add at least one byte.
    pub open spec fn wf(&self) -> bool {
        self.max_input_size() > 32
    }

    /// A mutator over the thread-local generator, with insertions bounded by
    /// 252 bytes and no magic values.
    pub fn new() -> (r: Self)
        ensures
            r.wf(),
            r.max_input_size() == 252,
            r.magic() == Seq::<Seq<u8>>::empty(),
            r.last() is Keep,
    {
        let r = Mutator { rng: thread_rng(), max_input_size: 252, magic_values: Vec::new(), last_mutation: Mutation::Keep };
        assert(magic_view(r.magic_values@) =~= Seq::<Seq<u8>>::empty());
        r
    }

    /// The same mutator, with the magic strategies picking from `values`.
    pub fn with_magic_values(self, values: Vec<Vec<u8>>) -> (r: Self)
        ensures
            r.max_input_size() == self.max_input_size(),
            r.magic() == magic_view(values@),
            r.last() == self.last(),
    {
        Mutator { rng: self.rng, max_input_size: self.max_input_size, magic_values: values, last_mutation: self.last_mutation }
    }

    /// Performs one mutation, of a kind drawn at random: the drawn mutation
    /// is kept as `last()`, and the result is what it makes of `felt`.
    pub fn mutate(&mut self, felt: FeltBytes) -> (r: FeltBytes)
        requires
            old(self).wf(),
        ensures
            final(self).wf(),
            final(self).max_input_size() == old(self).max_input_size(),
            final(self).magic() == old(self).magic(),
            mutation_valid(final(self).last(), old(self).magic().len() as int, old(self).max_input_size()),
            applies(felt@, final(self).last(), old(self).magic(), r@),
            is_mutation(felt@, r@, old(self).magic(), old(self).max_input_size()),
    {
        let m = self.draw_mutation();
        let r = self.apply_mutation(felt, &m);
        self.last_mutation = m;
        r
    }

    /// Draws the kind of a mutation in `[0, 16)`, then the values its
    /// strategy needs.
    pub(crate) fn draw_mutation(&mut self) -> (m: Mutation)
        requires
            old(self).wf(),
        ensures
            final(self).wf(),
            final(self).max_input_size() == old(self).max_input_size(),
            final(self).magic() == old(self).magic(),
            final(self).last() == old(self).last(),
            mutation_valid(m, old(self).magic().len() as int, old(self).max_input_size()),
    {
        let mutation_type = gen_range_usize(&mut self.rng, 0, 16);
        if mutation_type == 0 {
            // Random value between 1 and 9
            Mutation::AddSmall(gen_range_usize(&mut self.rng, 1, 10))
        } else if mutation_type == 1 {
            Mutation::SubtractSmall(gen_range_usize(&mut self.rng, 1, 10))
        } else if mutation_type == 2 {
            // Random bit index between 0 and 251
            Mutation::FlipBit(gen_range_usize(&mut self.rng, 0, 252))
        } else if mutation_type == 3 {
            Mutation::IncByte
        } else if mutation_type == 4 {
            Mutation::DecByte
        } else if mutation_type == 6 {
            Mutation::AddSub(gen_range_usize(&mut self.rng, 0, 200))
        } else if mutation_type == 7 {
            let (src, dst, len) = self.draw_ranges();
            Mutation::Swap(src, dst, len)
        } else if mutation_type == 8 {
            let (src, dst, len) = self.draw_ranges();
            Mutation::Copy(src, dst, len)
        } else if mutation_type == 9 {
            let (src, dst, len) = self.draw_ranges();
            Mutation::Splice(src, dst, len)
        } else if mutation_type == 10 {
            if self.magic_values.len() == 0 {
                assert(self.magic().len() == 0);
                Mutation::MagicOverwrite(None)
            } else {
                Mutation::MagicOverwrite(Some(gen_range_usize(&mut self.rng, 0, self.magic_values.len())))
            }
        } else if mutation_type == 11 {
            if self.magic_values.len() == 0 {
                assert(self.magic().len() == 0);
                Mutation::MagicInsert(None)
            } else {
                let i = gen_range_usize(&mut self.rng, 0, self.magic_values.len());
                let offset = gen_range_usize(&mut self.rng, 0, FELT_LEN + 1);
                Mutation::MagicInsert(Some((i, offset)))
            }
        } else if mutation_type == 12 {
            // Overwrite a random offset of the input with random bytes
            let offset = gen_range_usize(&mut self.rng, 0, FELT_LEN);
            let amount = gen_range_usize(&mut self.rng, 1, FELT_LEN - offset + 1);
            let mut fill: Vec<u8> = Vec::new();
            let mut i: usize = 0;
            while i < amount
                invariant
                    i <= amount,
                    fill.len() == i,
                    self.wf(),
                    self.max_input_size() == old(self).max_input_size(),
                    self.magic() == old(self).magic(),
                    self.last() == old(self).last(),
                decreases amount - i,
            {
                fill.push(gen_byte(&mut self.rng));
                i += 1;
            }
            Mutation::RandomOverwrite(offset, fill)
        } else if mutation_type == 13 {
            // Insert random bytes into a random offset in the input
            let offset = gen_range_usize(&mut self.rng, 0, FELT_LEN + 1);
            let amount = gen_range_usize(&mut self.rng, 0, self.max_input_size - FELT_LEN + 1);
            let val = gen_byte(&mut self.rng);
            Mutation::RandomInsert(offset, amount, val)
        } else if mutation_type == 14 {
            let offset = gen_range_usize(&mut self.rng, 0, FELT_LEN);
            let amount = gen_range_usize(&mut self.rng, 1, FELT_LEN - offset + 1);
            Mutation::RepeatOverwrite(offset, amount)
        } else if mutation_type == 15 {
            let offset = gen_range_usize(&mut self.rng, 0, FELT_LEN);
            let amount = gen_range_usize(&mut self.rng, 1, self.max_input_size - FELT_LEN + 1);
            Mutation::RepeatInsert(offset, amount)
        } else {
            // Fallback to the original value
            Mutation::Keep
        }
    }

    /// Draws two positions in the felt and a length that fits after both.
    fn draw_ranges(&mut self) -> (r: (usize, usize, usize))
        requires
            old(self).wf(),
        ensures
            final(self).wf(),
            final(self).max_input_size() == old(self).max_input_size(),
            final(self).magic() == old(self).magic(),
            final(self).last() == old(self).last(),
            range_params(r.0 as int, r.1 as int, r.2 as int),
    {
        let src = gen_range_usize(&mut self.rng, 0, FELT_LEN);
        let dst = gen_range_usize(&mut self.rng, 0, FELT_LEN);
        let far = if src > dst { src } else { dst };
        let len = gen_range_usize(&mut self.rng, 1, FELT_LEN - far + 1);
        (src, dst, len)
    }

    /// What mutation `m` makes of `felt`, with this mutator's magic values.
    pub fn apply_mutation(&self, felt: FeltBytes, m: &Mutation) -> (r: FeltBytes)
        requires
            mutation_valid(*m, self.magic().len() as int, self.max_input_size()),
        ensures
            applies(felt@, *m, self.magic(), r@),
            is_mutation(felt@, r@, self.magic(), self.max_input_size()),
    {
        match m {
            Mutation::AddSmall(k) => self.add_small_random_value(felt, *k),
            Mutation::SubtractSmall(k) => self.subtract_small_random_value(felt, *k),
            Mutation::FlipBit(b) => self.flip_random_bit(felt, *b),
            Mutation::IncByte => self.inc_byte(felt),
            Mutation::DecByte => self.dec_byte(felt),
            Mutation::AddSub(d) => self.add_sub(felt, *d),
            Mutation::Swap(s, d, n) => self.swap(felt, *s, *d, *n),
            Mutation::Copy(s, d, n) => self.copy(felt, *s, *d, *n),
            Mutation::Splice(s, d, n) => self.inter_splice(felt, *s, *d, *n),
            Mutation::MagicOverwrite(o) => self.magic_overwrite(felt, *o),
            Mutation::MagicInsert(o) => self.magic_insert(felt, *o),
            Mutation::RandomOverwrite(off, fill) => self.random_overwrite(felt, *off, fill),
            Mutation::RandomInsert(off, amount, val) => self.random_insert(felt, *off, *amount, *val),
            Mutation::RepeatOverwrite(off, amount) => self.byte_repeat_overwrite(felt, *off, *amount),
            Mutation::RepeatInsert(off, amount) => self.byte_repeat_insert(felt, *off, *amount),
            Mutation::Keep => felt,
        }
    }

    fn add_small_random_value(&self, felt: FeltBytes, small_value: usize) -> (r: FeltBytes)
        requires
            1 <= small_value < 10,
        ensures
            be_value(r@) == (be_value(felt@) + small_value) % (felt_prime() as int),
            is_shift_by(felt@, r@, 1, 10),
    {
        let r = shift_felt(&felt, small_value as i64);
        assert(in_range(small_value as int, 1, 10));
        r
    }

    fn subtract_small_random_value(&self, felt: FeltBytes, small_value: usize) -> (r: FeltBytes)
        requires
            1 <= small_value < 10,
        ensures
            be_value(r@) == (be_value(felt@) - small_value) % (felt_prime() as int),
            is_shift_by(felt@, r@, -9, 0),
    {
        let r = subtract_felt(&felt, small_value as u64);
        proof {
            let k = small_value as int;
            assert(in_range(-k, -9, 0));
            assert(be_value(felt@) - k == be_value(felt@) + (-k));
        }
        r
    }

    fn flip_random_bit(&self, felt: FeltBytes, bit_index: usize) -> (r: FeltBytes)
        requires
            bit_index < 252,
        ensures
            reduces_to(spec_flip_bit(felt@, bit_index as int), r@),
            is_bit_flip(felt@, r@),
    {
        let r = felt_reduce(&flip_bit_bytes(&felt, bit_index));
        assert(in_range(bit_index as int, 0, 252));
        r
    }

    fn inc_byte(&self, felt: FeltBytes) -> (r: FeltBytes)
        ensures
            be_value(r@) == (be_value(felt@) + 1int) % (felt_prime() as int),
            is_shift_by(felt@, r@, 1, 2),
    {
        let r = shift_felt(&felt, 1);
        assert(in_range(1, 1, 2));
        r
    }

    fn dec_byte(&self, felt: FeltBytes) -> (r: FeltBytes)
        ensures
            be_value(r@) == (be_value(felt@) - 1) % (felt_prime() as int),
            is_shift_by(felt@, r@, -1, 0),
    {
        let r = shift_felt(&felt, -1);
        assert(in_range(-1, -1, 0));
        r
    }

    fn add_sub(&self, felt: FeltBytes, draw: usize) -> (r: FeltBytes)
        requires
            draw < 200,
        ensures
            be_value(r@) == (be_value(felt@) + (draw - 100)) % (felt_prime() as int),
            is_shift_by(felt@, r@, -100, 100),
    {
        // Add or subtract a random amount
        let delta: i64 = draw as i64 - 100;
        let r = shift_felt(&felt, delta);
        assert(in_range(delta as int, -100, 100));
        r
    }

    fn swap(&self, felt: FeltBytes, src: usize, dst: usize, len: usize) -> (r: FeltBytes)
        requires
            range_params(src as int, dst as int, len as int),
        ensures
            reduces_to(spec_swap_ranges(felt@, src as int, dst as int, len as nat), r@),
            is_swap(felt@, r@),
    {
        // Swap two ranges in an input buffer
        felt_reduce(&swap_bytes(&felt, src, dst, len))
    }

    fn copy(&self, felt: FeltBytes, src: usize, dst: usize, len: usize) -> (r: FeltBytes)
        requires
            range_params(src as int, dst as int, len as int),
        ensures
            reduces_to(spec_copy_ranges(felt@, src as int, dst as int, len as nat), r@),
            is_copy(felt@, r@),
    {
        // Copy bytes from one location in the input and overwrite them at another
        felt_reduce(&copy_bytes(&felt, src, dst, len))
    }

    fn inter_splice(&self, felt: FeltBytes, src: usize, dst: usize, len: usize) -> (r: FeltBytes)
        requires
            range_params(src as int, dst as int, len as int),
        ensures
            reduces_to(spec_inter_splice(felt@, src as int, dst as int, len as int), r@),
            is_splice(felt@, r@),
    {
        // Take one location of the input and splice it into another
        felt_reduce(&inter_splice_bytes(&felt, src, dst, len))
    }

    fn magic_overwrite(&self, felt: FeltBytes, pick: Option<usize>) -> (r: FeltBytes)
        requires
            mutation_valid(Mutation::MagicOverwrite(pick), self.magic().len() as int, self.max_input_size()),
        ensures
            applies(felt@, Mutation::MagicOverwrite(pick), self.magic(), r@),
            is_magic_overwrite(felt@, r@, self.magic()),
    {
        match pick {
            None => felt,
            Some(i) => {
                // Overwrite with the picked magic value
                let r = felt_reduce(&magic_overwrite_bytes(&felt, &self.magic_values[i]));
                assert(in_range(i as int, 0, self.magic().len() as int));
                assert(self.magic()[i as int] == self.magic_values@[i as int]@);
                r
            },
        }
    }

    fn magic_insert(&self, felt: FeltBytes, pick: Option<(usize, usize)>) -> (r: FeltBytes)
        requires
            mutation_valid(Mutation::MagicInsert(pick), self.magic().len() as int, self.max_input_size()),
        ensures
            applies(felt@, Mutation::MagicInsert(pick), self.magic(), r@),
            is_magic_insert(felt@, r@, self.magic()),
    {
        match pick {
            None => felt,
            Some((i, offset)) => {
                // Insert the picked magic value at the offset
                let r = felt_reduce(&magic_insert_bytes(&felt, &self.magic_values[i], offset));
                assert(self.magic()[i as int] == self.magic_values@[i as int]@);
                r
            },
        }
    }

    fn random_overwrite(&self, felt: FeltBytes, offset: usize, fill: &Vec<u8>) -> (r: FeltBytes)
        requires
            offset < 32,
            1 <= fill@.len(),
            offset + fill@.len() <= 32,
        ensures
            reduces_to(spec_random_overwrite(felt@, offset as int, fill@), r@),
            is_random_overwrite(felt@, r@),
    {
        // Overwrite a random offset of the input with random bytes
        felt_reduce(&random_overwrite_bytes(&felt, offset, fill))
    }

    fn random_insert(&self, felt: FeltBytes, offset: usize, amount: usize, val: u8) -> (r: FeltBytes)
        requires
            offset <= 32,
            amount <= self.max_input_size() - 32,
        ensures
            reduces_to(spec_repeat_insert(felt@, offset as int, amount as nat, val), r@),
            is_random_insert(felt@, r@, self.max_input_size()),
    {
        // Insert random bytes into a random offset in the input
        felt_reduce(&repeat_insert_bytes(&felt, offset, amount, val))
    }

    fn byte_repeat_overwrite(&self, felt: FeltBytes, offset: usize, amount: usize) -> (r: FeltBytes)
        requires
            offset < 32,
            1 <= amount,
            offset + amount <= 32,
        ensures
            reduces_to(spec_repeat_overwrite(felt@, offset as int, amount as int), r@),
            is_repeat_overwrite(felt@, r@),
    {
        // Find a byte and repeat it multiple times by overwriting the data after it
        felt_reduce(&repeat_overwrite_bytes(&felt, offset, amount))
    }

    fn byte_repeat_insert(&self, felt: FeltBytes, offset: usize, amount: usize) -> (r: FeltBytes)
        requires
            offset < 32,
            1 <= amount <= self.max_input_size() - 32,
        ensures
            reduces_to(spec_repeat_insert(felt@, offset as int, amount as nat, felt@[offset as int]), r@),
            is_repeat_insert(felt@, r@, self.max_input_size()),
    {
        // Find a byte and repeat it multiple times by splicing a random amount of the byte in
        let val = felt[offset];
        felt_reduce(&repeat_insert_bytes(&felt, offset, amount, val))
    }
}

} // verus!
