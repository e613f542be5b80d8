//! The Starknet fuzzer: typed contract parameters, felt252 calldata, workers
//! that share coverage and unique crashes with a coordinating fuzzer.
pub mod rng;
pub mod types;
pub mod starknet_runner;
pub mod mutator_felt252;
pub mod error;
pub mod crash;
pub mod coverage;
pub mod stats;
pub mod worker;
pub mod fuzzer;
pub mod json_parser;
pub mod ui;
pub mod config;
