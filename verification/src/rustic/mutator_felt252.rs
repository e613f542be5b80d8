//! Mutation of typed parameters through their felt252 calldata.
use vstd::prelude::*;
use crate::felt::{be_value, lemma_be_value_low_bytes, low_bytes_value, pow256, FeltBytes};
use crate::rustic::starknet_runner::{convert_calldata, is_calldata};
use crate::rustic::types::{type_view, types_view, Type, TypeV};

verus! {

/// The number of bytes of a parameter of this type.
pub open spec fn byte_width(t: TypeV) -> int {
    match t {
        TypeV::U8(_) => 1,
        TypeV::U16(_) => 2,
        TypeV::U32(_) => 4,
        TypeV::U64(_) => 8,
        TypeV::U128(_) => 16,
        _ => 32,
    }
}

/// Types whose values `fix_inputs_types` can rebuild from a felt.
pub open spec fn is_fixable(t: TypeV) -> bool {
    !(t is Bool) && !(t is Vector)
}

/// The parameter of the same type as `t` rebuilt from the mutated felt `f`:
/// an integer type keeps the low-order bytes of the felt that fit in it, a
/// felt is taken whole.
pub open spec fn spec_fix_type(t: TypeV, f: Seq<u8>) -> TypeV {
    let low = be_value(f.subrange(32 - byte_width(t), 32));
    match t {
        TypeV::U8(_) => TypeV::U8(low as u8),
        TypeV::U16(_) => TypeV::U16(low as u16),
        TypeV::U32(_) => TypeV::U32(low as u32),
        TypeV::U64(_) => TypeV::U64(low as u64),
        TypeV::U128(_) => TypeV::U128(low as u128),
        _ => TypeV::Felt252(f),
    }
}

/// Typed parameters held as their felt252 calldata while the felts are
/// mutated, and read back as parameters of the same types. The felts are
/// mutated elsewhere: this type records the seed and size the mutation
/// engine was configured with and does not draw from them itself.
pub struct CairoMutator {
    /// The seed the mutation engine was configured with.
    pub seed: u64,
    /// The largest number of felts the mutation engine was configured for.
    pub max_input_size: usize,
    /// The felts being mutated.
    pub input: Vec<FeltBytes>,
}

impl CairoMutator {
    /// A mutator for inputs of up to `max_input_size` felts, seeded with `seed`.
    pub fn new(seed: u64, max_input_size: usize) -> (r: Self)
        ensures
            r.seed == seed,
            r.max_input_size == max_input_size,
            r.input@ == Seq::<FeltBytes>::empty(),
    {
        CairoMutator { seed, max_input_size, input: Vec::new() }
    }

    /// Replaces the felts being mutated by the calldata of `inputs`.
    pub fn load_inputs(&mut self, inputs: &Vec<Type>)
        ensures
            is_calldata(final(self).input@, types_view(inputs@)),
            final(self).seed == old(self).seed,
            final(self).max_input_size == old(self).max_input_size,
    {
        self.input.clear();
        let mut felts = convert_calldata(crate::rustic::types::duplicate_types(inputs));
        self.input.append(&mut felts);
    }

    /// Rebuilds parameters of the types of `inputs` from the mutated felts,
    /// the i-th parameter from the i-th felt.
    pub fn fix_inputs_types(&self, inputs: &Vec<Type>) -> (res: Vec<Type>)
        requires
            inputs.len() <= self.input.len(),
            forall|i: int| 0 <= i < inputs.len() ==> is_fixable(#[trigger] type_view(inputs@[i])),
        ensures
            res.len() == inputs.len(),
            forall|i: int| 0 <= i < inputs.len() ==>
                type_view(#[trigger] res@[i]) == spec_fix_type(type_view(inputs@[i]), self.input@[i]@),
    {
        let mut res: Vec<Type> = Vec::new();
        let mut idx: usize = 0;
        while idx < inputs.len()
            invariant
                inputs.len() <= self.input.len(),
                forall|i: int| 0 <= i < inputs.len() ==> is_fixable(#[trigger] type_view(inputs@[i])),
                idx <= inputs.len(),
                res.len() == idx,
                forall|i: int| 0 <= i < idx ==>
                    type_view(#[trigger] res@[i]) == spec_fix_type(type_view(inputs@[i]), self.input@[i]@),
            decreases inputs.len() - idx,
        {
            let felt = &self.input[idx];
            assert(is_fixable(type_view(inputs@[idx as int])));
            let t = match &inputs[idx] {
                Type::U8(_) => Type::U8(low_bytes_value(felt, 1) as u8),
                Type::U16(_) => Type::U16(low_bytes_value(felt, 2) as u16),
                Type::U32(_) => Type::U32(low_bytes_value(felt, 4) as u32),
                Type::U64(_) => Type::U64(low_bytes_value(felt, 8) as u64),
                Type::U128(_) => Type::U128(low_bytes_value(felt, 16)),
                _ => Type::Felt252(*felt),
            };
            res.push(t);
            idx += 1;
        }
        res
    }
}

/// A parameter rebuilt from a 32-byte felt keeps the felt's value modulo
/// 2 to the power of the parameter's bit width: a `u8` the value modulo
/// 2^8, a `u16` modulo 2^16, a `u32` modulo 2^32, a `u64` modulo 2^64 and a
/// `u128` modulo 2^128; a felt is kept whole.
pub proof fn lemma_fixed_parameters_keep_low_bits(f: Seq<u8>, x8: u8, x16: u16, x32: u32, x64: u64, x128: u128, b: Seq<u8>)
    requires
        f.len() == 32,
    ensures
        spec_fix_type(TypeV::U8(x8), f) == TypeV::U8((be_value(f) % 0x100) as u8),
        spec_fix_type(TypeV::U16(x16), f) == TypeV::U16((be_value(f) % 0x1_0000) as u16),
        spec_fix_type(TypeV::U32(x32), f) == TypeV::U32((be_value(f) % 0x1_0000_0000) as u32),
        spec_fix_type(TypeV::U64(x64), f) == TypeV::U64((be_value(f) % 0x1_0000_0000_0000_0000) as u64),
        spec_fix_type(TypeV::U128(x128), f) == TypeV::U128(
            (be_value(f) % 0x1_0000_0000_0000_0000_0000_0000_0000_0000nat) as u128,
        ),
        spec_fix_type(TypeV::Felt252(b), f) == TypeV::Felt252(f),
{
    reveal_with_fuel(pow256, 17);
    assert(pow256(1) == 0x100);
    assert(pow256(2) == 0x1_0000);
    assert(pow256(4) == 0x1_0000_0000);
    assert(pow256(8) == 0x1_0000_0000_0000_0000);
    assert(pow256(16) == 0x1_0000_0000_0000_0000_0000_0000_0000_0000nat);
    lemma_be_value_low_bytes(f, 1);
    lemma_be_value_low_bytes(f, 2);
    lemma_be_value_low_bytes(f, 4);
    lemma_be_value_low_bytes(f, 8);
    lemma_be_value_low_bytes(f, 16);
}

} // verus!
