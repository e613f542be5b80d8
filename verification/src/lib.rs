//! Verified core of a family of fuzzers for Cairo programs: xorshift random
//! number generators, byte-level mutation strategies, input typing and
//! calldata conversion, contract ABI inspection and the bookkeeping that
//! decides which inputs and crashes a fuzzing campaign keeps.
pub mod xorshift;
pub mod text;
pub mod json;
pub mod timeout;
pub mod scope;
pub mod relocatable;
pub mod ids;
pub mod memory;
pub mod run_context;
pub mod felt;
pub mod cairo_fuzz;
pub mod native;
pub mod rustic;
