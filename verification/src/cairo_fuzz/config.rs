//! The settings of a fuzzing campaign on a Cairo program, as a
//! configuration file gives them.
use vstd::prelude::*;

verus! {

/// The settings of a campaign: workers, logging, seed, mode and files.
#[derive(Debug, Clone)]
pub struct Config {
    pub cores: i32,
    pub logs: bool,
    pub seed: Option<u64>,
    pub replay: bool,
    pub minimizer: bool,
    pub contract_file: String,
    pub function_name: String,
    pub input_file: String,
    pub crash_file: String,
}

} // verus!
