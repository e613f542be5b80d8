//! The types of the parameters of a Starknet contract function.
use vstd::prelude::*;
use crate::felt::FeltBytes;

verus! {

/// A typed parameter value. Felts are held as their 32 big-endian bytes.
#[derive(Debug)]
pub enum Type {
    Felt252(FeltBytes),
    U8(u8),
    U16(u16),
    U32(u32),
    U64(u64),
    U128(u128),
    Bool(bool),
    Vector(Box<Type>, Vec<Type>),
}

/// The abstract value of a `Type`.
pub enum TypeV {
    Felt252(Seq<u8>),
    U8(u8),
    U16(u16),
    U32(u32),
    U64(u64),
    U128(u128),
    Bool(bool),
    Vector(Box<TypeV>, Seq<TypeV>),
}

/// The abstract value of a parameter.
pub open spec fn type_view(t: Type) -> TypeV
    decreases t, 1nat,
{
    match t {
        Type::Felt252(b) => TypeV::Felt252(b@),
        Type::U8(v) => TypeV::U8(v),
        Type::U16(v) => TypeV::U16(v),
        Type::U32(v) => TypeV::U32(v),
        Type::U64(v) => TypeV::U64(v),
        Type::U128(v) => TypeV::U128(v),
        Type::Bool(v) => TypeV::Bool(v),
        Type::Vector(e, v) => TypeV::Vector(Box::new(type_view(*e)), types_view(v@)),
    }
}

/// The abstract values of a list of parameters.
pub open spec fn types_view(s: Seq<Type>) -> Seq<TypeV>
    decreases s, 0nat,
{
    if s.len() == 0 {
        Seq::empty()
    } else {
        types_view(s.drop_last()).push(type_view(s.last()))
    }
}

impl View for Type {
    type V = TypeV;

    open spec fn view(&self) -> TypeV {
        type_view(*self)
    }
}

impl Type {
    /// A copy of the value.
    pub fn duplicate(&self) -> (r: Type)
        ensures
            r@ == self@,
        decreases self,
    {
        match self {
            Type::Felt252(b) => Type::Felt252(*b),
            Type::U8(v) => Type::U8(*v),
            Type::U16(v) => Type::U16(*v),
            Type::U32(v) => Type::U32(*v),
            Type::U64(v) => Type::U64(*v),
            Type::U128(v) => Type::U128(*v),
            Type::Bool(v) => Type::Bool(*v),
            Type::Vector(t, v) => {
                let t2 = Box::new((**t).duplicate());
                let v2 = duplicate_types(v);
                Type::Vector(t2, v2)
            },
        }
    }
}

/// A copy of a list of values.
pub fn duplicate_types(v: &Vec<Type>) -> (r: Vec<Type>)
    ensures
        types_view(r@) == types_view(v@),
    decreases v,
{
    let mut r: Vec<Type> = Vec::new();
    let mut i: usize = 0;
    while i < v.len()
        invariant
            i <= v.len(),
            r.len() == i,
            forall|j: int| 0 <= j < i ==> type_view(#[trigger] r@[j]) == type_view(v@[j]),
        decreases v.len() - i,
    {
        proof {
            assert(decreases_to!(v => v@[i as int]));
        }
        r.push(v[i].duplicate());
        i += 1;
    }
    proof {
        lemma_types_view_pointwise(r@, v@);
    }
    r
}

/// The abstract values of a list are those of its elements.
pub proof fn lemma_types_view_index(s: Seq<Type>)
    ensures
        types_view(s).len() == s.len(),
        forall|i: int| 0 <= i < s.len() ==> types_view(s)[i] == type_view(#[trigger] s[i]),
    decreases s.len(),
{
    if s.len() > 0 {
        lemma_types_view_index(s.drop_last());
        assert forall|i: int| 0 <= i < s.len() implies types_view(s)[i] == type_view(#[trigger] s[i]) by {
            if i < s.len() - 1 {
                assert(s.drop_last()[i] == s[i]);
            }
        }
    }
}

/// Two lists whose elements have the same abstract values have the same
/// abstract value.
pub proof fn lemma_types_view_pointwise(a: Seq<Type>, b: Seq<Type>)
    requires
        a.len() == b.len(),
        forall|j: int| 0 <= j < a.len() ==> type_view(#[trigger] a[j]) == type_view(b[j]),
    ensures
        types_view(a) == types_view(b),
{
    lemma_types_view_index(a);
    lemma_types_view_index(b);
    assert forall|i: int| 0 <= i < a.len() implies types_view(a)[i] == types_view(b)[i] by {
        assert(type_view(a[i]) == type_view(b[i]));
    }
    assert(types_view(a) =~= types_view(b));
}

/// The parameters of a call.
pub struct Parameters(pub Vec<Type>);

} // verus!
