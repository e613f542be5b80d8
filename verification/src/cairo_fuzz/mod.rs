//! The first-generation fuzzer: inputs are vectors of small values that are
//! run on the Cairo VM, with coverage and crash databases shared by workers.
pub mod rng;
pub mod cairo_types;
pub mod stats;
pub mod worker;
pub mod json_parser;
pub mod corpus;
pub mod fuzzer;
pub mod config;
pub mod minimizer;
pub mod replay;
