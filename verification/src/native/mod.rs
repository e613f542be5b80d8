//! The cairo-native fuzzer: single felt252 parameters mutated with byte-level
//! strategies and executed by a JIT-compiled Sierra program.
pub mod rng;
pub mod argument_type;
pub mod utils;
pub mod mutator;
pub mod fuzzer;
