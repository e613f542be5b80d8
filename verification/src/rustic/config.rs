//! The settings of a Starknet fuzzing campaign, as a configuration file
//! gives them instead of the command line.
use vstd::prelude::*;

verus! {

/// Config struct to use instead of command line
#[derive(Debug, Clone, Default)]
pub struct Config {
    pub contract_file: String,
    pub casm_file: String,
    pub target_function: String,
    pub statefull: bool,
    pub corpus_dir: String,
    pub crashes_dir: String,
    pub cores: i32,
    pub seed: Option<u64>,
    pub replay: bool,
    pub proptesting: bool,
    pub diff_fuzz: bool,
}

} // verus!
