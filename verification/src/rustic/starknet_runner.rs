//! Calldata for a Starknet entry point: every parameter becomes one or more
//! felts.
use vstd::prelude::*;
use crate::felt::{be_value, felt_from_u128, felt_prime, FeltBytes};
use crate::rustic::types::{type_view, types_view, Type, TypeV};
use crate::rustic::coverage::{Coverage, Relocatable};
use crate::rustic::error::Error;

verus! {

/// The scalar parameters of a list, in order, with vectors replaced by their
/// elements.
pub open spec fn flatten(s: Seq<TypeV>) -> Seq<TypeV>
    decreases s, 0nat,
{
    if s.len() == 0 {
        Seq::empty()
    } else {
        flatten(s.drop_last()) + flatten_one(s.last())
    }
}

/// The scalar parameters of one parameter.
pub open spec fn flatten_one(t: TypeV) -> Seq<TypeV>
    decreases t, 1nat,
{
    match t {
        TypeV::Vector(_, v) => flatten(v),
        _ => seq![t],
    }
}

/// The felt `bytes` is the calldata of the scalar parameter `t`: a felt is
/// passed as itself, an integer as the felt of the same value, a boolean as
/// 1 or 0.
pub open spec fn felt_encodes(bytes: Seq<u8>, t: TypeV) -> bool {
    match t {
        TypeV::Felt252(b) => bytes == b,
        TypeV::U8(v) => be_value(bytes) == v,
        TypeV::U16(v) => be_value(bytes) == v,
        TypeV::U32(v) => be_value(bytes) == v,
        TypeV::U64(v) => be_value(bytes) == v,
        TypeV::U128(v) => be_value(bytes) == v,
        TypeV::Bool(v) => be_value(bytes) == (if v { 1nat } else { 0nat }),
        TypeV::Vector(_, _) => false,
    }
}

/// `out` is the calldata of the parameters `s`.
pub open spec fn is_calldata(out: Seq<FeltBytes>, s: Seq<TypeV>) -> bool {
    &&& out.len() == flatten(s).len()
    &&& forall|i: int| 0 <= i < out.len() ==> felt_encodes(#[trigger] out[i]@, flatten(s)[i])
}

/// The scalar parameters of two lists one after the other are those of the
/// first list followed by those of the second.
pub proof fn lemma_flatten_concat(a: Seq<TypeV>, b: Seq<TypeV>)
    ensures
        flatten(a + b) == flatten(a) + flatten(b),
    decreases b.len(),
{
    if b.len() == 0 {
        assert(a + b =~= a);
        assert(flatten(a) + flatten(b) =~= flatten(a));
    } else {
        lemma_flatten_concat(a, b.drop_last());
        assert((a + b).drop_last() =~= a + b.drop_last());
        assert((a + b).last() == b.last());
        assert(flatten(a + b) =~= flatten(a) + flatten(b));
    }
}

/// The abstract values of two lists of parameters one after the other are
/// those of each list in turn.
pub proof fn lemma_types_view_concat(a: Seq<Type>, b: Seq<Type>)
    ensures
        types_view(a + b) == types_view(a) + types_view(b),
{
    crate::rustic::types::lemma_types_view_index(a + b);
    crate::rustic::types::lemma_types_view_index(a);
    crate::rustic::types::lemma_types_view_index(b);
    assert forall|i: int| 0 <= i < (a + b).len() implies types_view(a + b)[i] == (types_view(a) + types_view(b))[i] by {
        if i < a.len() {
            assert((a + b)[i] == a[i]);
        } else {
            assert((a + b)[i] == b[i - a.len()]);
        }
    }
    assert(types_view(a + b) =~= types_view(a) + types_view(b));
}

/// The calldata of two lists of parameters one after the other is the
/// calldata of the first followed by that of the second; the calldata of a
/// vector is that of its elements.
pub proof fn lemma_calldata_concat(x: Seq<FeltBytes>, y: Seq<FeltBytes>, a: Seq<Type>, b: Seq<Type>, elem: TypeV, v: Seq<TypeV>)
    requires
        is_calldata(x, types_view(a)),
        is_calldata(y, types_view(b)),
    ensures
        is_calldata(x + y, types_view(a + b)),
        flatten(seq![TypeV::Vector(Box::new(elem), v)]) == flatten(v),
{
    lemma_types_view_concat(a, b);
    lemma_flatten_concat(types_view(a), types_view(b));
    let fa = flatten(types_view(a));
    let fb = flatten(types_view(b));
    assert forall|i: int| 0 <= i < (x + y).len() implies felt_encodes(#[trigger] (x + y)[i]@, flatten(types_view(a + b))[i]) by {
        if i < x.len() {
            assert((x + y)[i] == x[i]);
            assert((fa + fb)[i] == fa[i]);
            assert(felt_encodes(x[i]@, fa[i]));
        } else {
            assert((x + y)[i] == y[i - x.len()]);
            assert((fa + fb)[i] == fb[i - x.len()]);
            assert(felt_encodes(y[i - x.len()]@, fb[i - x.len()]));
        }
    }
    let w = seq![TypeV::Vector(Box::new(elem), v)];
    assert(w.drop_last() =~= Seq::<TypeV>::empty());
    assert(w.last() == TypeV::Vector(Box::new(elem), v));
    assert(flatten(w.drop_last()) == Seq::<TypeV>::empty());
    assert(flatten_one(w.last()) == flatten(v));
    assert(flatten(w) == flatten(w.drop_last()) + flatten_one(w.last()));
    assert(flatten(w) =~= flatten(v));
}

/// Two byte strings of one length with the same big-endian value are equal.
proof fn lemma_be_value_injective(s: Seq<u8>, t: Seq<u8>)
    requires
        s.len() == t.len(),
        be_value(s) == be_value(t),
    ensures
        s == t,
    decreases s.len(),
{
    if s.len() > 0 {
        let x = be_value(s.drop_last()) as int;
        let y = be_value(t.drop_last()) as int;
        let a = s.last() as int;
        let b = t.last() as int;
        assert(x * 256 + a == y * 256 + b);
        assert(x == y && a == b) by (nonlinear_arith)
            requires
                x * 256 + a == y * 256 + b,
                0 <= a < 256,
                0 <= b < 256,
        ;
        lemma_be_value_injective(s.drop_last(), t.drop_last());
        assert(s =~= s.drop_last().push(s.last()));
        assert(t =~= t.drop_last().push(t.last()));
    }
}

/// A list of parameters has one calldata: two calldata of the same list
/// hold the same felts.
pub proof fn lemma_calldata_unique(x: Seq<FeltBytes>, y: Seq<FeltBytes>, s: Seq<TypeV>)
    requires
        is_calldata(x, s),
        is_calldata(y, s),
    ensures
        x.len() == y.len(),
        forall|i: int| 0 <= i < x.len() ==> (#[trigger] x[i])@ == y[i]@,
{
    assert forall|i: int| 0 <= i < x.len() implies (#[trigger] x[i])@ == y[i]@ by {
        let t = flatten(s)[i];
        assert(felt_encodes(x[i]@, t));
        assert(felt_encodes(y[i]@, t));
        assert(x[i]@.len() == 32 && y[i]@.len() == 32);
        if !(t is Felt252) {
            lemma_be_value_injective(x[i]@, y[i]@);
        }
    }
}

/// The calldata of two lists of parameters one after the other is the
/// calldata of the first followed by that of the second, and the calldata
/// of a vector is that of its elements.
pub proof fn lemma_calldata_distributes(
    ra: Seq<FeltBytes>,
    rb: Seq<FeltBytes>,
    rab: Seq<FeltBytes>,
    a: Seq<Type>,
    b: Seq<Type>,
    rv: Seq<FeltBytes>,
    relems: Seq<FeltBytes>,
    elem: Type,
    elems: Seq<Type>,
)
    requires
        is_calldata(ra, types_view(a)),
        is_calldata(rb, types_view(b)),
        is_calldata(rab, types_view(a + b)),
        is_calldata(rv, seq![TypeV::Vector(Box::new(type_view(elem)), types_view(elems))]),
        is_calldata(relems, types_view(elems)),
    ensures
        rab.len() == ra.len() + rb.len(),
        forall|i: int| 0 <= i < rab.len() ==> (#[trigger] rab[i])@ == (ra + rb)[i]@,
        rv.len() == relems.len(),
        forall|i: int| 0 <= i < rv.len() ==> (#[trigger] rv[i])@ == relems[i]@,
{
    lemma_calldata_concat(ra, rb, a, b, type_view(elem), types_view(elems));
    lemma_calldata_unique(rab, ra + rb, types_view(a + b));
    let w = seq![TypeV::Vector(Box::new(type_view(elem)), types_view(elems))];
    assert(flatten(w) == flatten(types_view(elems)));
    assert(is_calldata(rv, types_view(elems)));
    lemma_calldata_unique(rv, relems, types_view(elems));
}

/// The felt of an unsigned integer.
fn felt_of_uint(v: u128) -> (r: FeltBytes)
    ensures
        be_value(r@) == v,
{
    let r = felt_from_u128(v);
    proof {
        assert((v as nat) < felt_prime());
        vstd::arithmetic::div_mod::lemma_small_mod(v as nat, felt_prime());
    }
    r
}

/// Appends the calldata of `inputs` to `res`.
fn append_calldata(res: &mut Vec<FeltBytes>, inputs: &Vec<Type>)
    ensures
        final(res)@.len() == old(res)@.len() + flatten(types_view(inputs@)).len(),
        final(res)@.subrange(0, old(res)@.len() as int) == old(res)@,
        is_calldata(final(res)@.skip(old(res)@.len() as int), types_view(inputs@)),
    decreases inputs,
{
    let ghost start = res@.len();
    let mut i: usize = 0;
    while i < inputs.len()
        invariant
            i <= inputs.len(),
            start == old(res)@.len(),
            res@.len() == start + flatten(types_view(inputs@.take(i as int))).len(),
            res@.subrange(0, start as int) == old(res)@,
            is_calldata(res@.skip(start as int), types_view(inputs@.take(i as int))),
        decreases inputs.len() - i,
    {
        let ghost before = res@;
        proof {
            assert(decreases_to!(inputs => inputs@[i as int]));
            assert(inputs@.take(i + 1).drop_last() =~= inputs@.take(i as int));
        }
        let ghost t = type_view(inputs@[i as int]);
        match &inputs[i] {
            Type::Felt252(value) => res.push(*value),
            Type::U8(value) => res.push(felt_of_uint(*value as u128)),
            Type::U16(value) => res.push(felt_of_uint(*value as u128)),
            Type::U32(value) => res.push(felt_of_uint(*value as u128)),
            Type::U64(value) => res.push(felt_of_uint(*value as u128)),
            Type::U128(value) => res.push(felt_of_uint(*value as u128)),
            Type::Bool(value) => {
                let v: u128 = if *value { 1 } else { 0 };
                res.push(felt_of_uint(v));
            },
            Type::Vector(_, vec) => {
                proof {
                    assert(decreases_to!(inputs@[i as int] => *vec));
                }
                append_calldata(res, vec);
            },
        }
        proof {
            let prev = types_view(inputs@.take(i as int));
            let next = types_view(inputs@.take(i + 1));
            assert(next == prev.push(t));
            assert(next.drop_last() =~= prev);
            assert(next.last() == t);
            assert(flatten(next) == flatten(prev) + flatten_one(t));
            let seg = res@.skip(before.len() as int);
            assert(is_calldata(seg, seq![t]) || t is Vector) by {
                if !(t is Vector) {
                    assert(flatten(seq![t]) =~= seq![t]) by {
                        assert(seq![t].drop_last() =~= Seq::<TypeV>::empty());
                        assert(flatten(Seq::<TypeV>::empty()) =~= Seq::<TypeV>::empty());
                        assert(flatten_one(t) =~= seq![t]);
                    }
                }
            }
            assert(res@.subrange(0, start as int) =~= old(res)@);
            assert forall|j: int| 0 <= j < res@.skip(start as int).len() implies felt_encodes(#[trigger] res@.skip(start as int)[j]@, flatten(next)[j]) by {
                let k = flatten(prev).len();
                if j < k {
                    assert(res@.skip(start as int)[j] == before.skip(start as int)[j]);
                } else {
                    assert(res@.skip(start as int)[j] == seg[j - k]);
                    if t is Vector {
                        assert(flatten_one(t) == flatten(t->Vector_1));
                    } else {
                        assert(flatten_one(t) =~= seq![t]);
                    }
                }
            }
        }
        i += 1;
    }
    assert(inputs@.take(inputs.len() as int) =~= inputs@);
}

/// The calldata of a call: one felt per scalar parameter, vectors flattened.
pub fn convert_calldata(inputs: Vec<Type>) -> (res: Vec<FeltBytes>)
    ensures
        is_calldata(res@, types_view(inputs@)),
{
    let mut res: Vec<FeltBytes> = Vec::new();
    append_calldata(&mut res, &inputs);
    assert(res@.skip(0) =~= res@);
    res
}

/// What an execution of the target on `inputs` amounts to: its coverage
/// (failure flag and trace) when the execution ran, or, when it could not
/// run and reported `message`, an empty coverage without failure together
/// with an unknown error carrying the message.
pub fn execution_result(
    inputs: Vec<Type>,
    outcome: Result<(bool, Vec<(Relocatable, usize)>), String>,
) -> (r: Result<Option<Coverage>, (Coverage, Error)>)
    ensures
        match outcome {
            Ok((failure, trace)) => r == Ok::<Option<Coverage>, (Coverage, Error)>(
                Some(Coverage { failure, inputs, data: trace }),
            ),
            Err(message) => r matches Err((c, e)) && c.failure == false && c.inputs == inputs
                && c.data@.len() == 0 && e == (Error::Unknown { message }),
        },
{
    match outcome {
        Ok((failure, trace)) => Ok(Some(Coverage { failure, inputs, data: trace })),
        Err(message) => Err((Coverage { failure: false, inputs, data: Vec::new() }, Error::Unknown { message })),
    }
}

} // verus!
