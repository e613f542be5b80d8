//! The types of entry point arguments the fuzzer knows how to generate.
use vstd::prelude::*;
use crate::text::str_eq;

verus! {

/// Enum representing the types of arguments that can be passed to a function
#[derive(Debug, PartialEq, Eq, Structural)]
pub enum ArgumentType {
    Felt,
    FeltArray,
}

/// Helper function to map argument types based on their debug names
/// This function takes a debug name string and returns the corresponding `ArgumentType`
pub fn map_argument_type(debug_name: &str) -> (r: Option<ArgumentType>)
    ensures
        r == (if debug_name@ == "felt252"@ { Some(ArgumentType::Felt) } else { None::<ArgumentType> }),
{
    if str_eq(debug_name, "felt252") {
        Some(ArgumentType::Felt)
    } else {
        None
    }
}

} // verus!
