//! Command-line settings of a load-test run.

use vstd::prelude::*;

verus! {

/// What a run is asked to do: which scenario file, how many concurrent
/// virtual users, and for how many seconds.
#[derive(Debug)]
pub struct Cli {
    /// Path to the YAML scenario config file.
    pub config: String,
    /// How many concurrent virtual users to simulate.
    pub users: usize,
    /// Total duration of the test in seconds.
    pub duration: u64,
}

} // verus!
