//! The arguments that a run was started with.

use vstd::prelude::*;

verus! {

/// The program's configuration: the arguments of the command to run.
#[derive(Debug, PartialEq)]
pub struct Config {
    pub argv: Vec<String>,
}

impl Config {
    /// The configuration that holds the arguments `argv`.
    pub fn new(argv: Vec<String>) -> (config: Config)
        ensures
            config.argv == argv,
    {
        Config { argv }
    }
}

} // verus!
