//! The settings of an experiment.

use vstd::prelude::*;

verus! {

/// How many rewriting iterations one growth phase may take.
pub const ITER_LIMIT: usize = 1000;

/// How many seconds one growth phase may take.
pub const TIME_LIMIT_SECS: u64 = 4000;

/// The deadline of one search where none is configured: sixty seconds.
pub const DEFAULT_TIMEOUT_MICROS: u128 = 60_000_000;

/// The settings of an experiment, as plain values.
#[derive(Clone, Debug, PartialEq, Eq)]
pub struct Opt {
    /// Names of the benchmarks to run, in order.
    pub benchmarks: Vec<String>,
    /// Node-count ceilings of the successive growth phases.
    pub sizes: Vec<usize>,
    /// Where the rows go.
    pub filename: String,
    /// Strategy selector: `all`, `gj` or `em`.
    pub strategy: String,
    /// How often the whole list of benchmarks is run.
    pub samples: usize,
    /// How long to wait for one search, in microseconds.
    pub timeout_micros: u128,
    /// Whether each row is echoed to the diagnostic stream.
    pub verbose: bool,
}

} // verus!
