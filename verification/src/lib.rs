//! Orchestration core of an e-matching benchmark harness: which growth
//! phases and pattern searches to run, in which order, and what to record.
//!
//! The harness compares two pattern-search strategies over an e-graph. The
//! corpus is grown through a sequence of size tiers; after each tier every
//! probe pattern is searched under each selected strategy, with a bounded
//! wait, and each search is recorded as one row.
//!
//! Nothing here rewrites, matches, waits or writes. A run is a state machine
//! ([`run::BenchRun`]) that says what to do next and is told what came of
//! it; an experiment ([`experiment::Experiment`]) hands out the benchmarks
//! to run; a recorder ([`sink::Recorder`]) turns rows into the bytes to
//! append to the sink.
//!
//! What holds of every run, whatever the engine answers, is proved in
//! [`trace`]; [`rows`] says which rows a whole run records.

pub mod bench;
pub mod error;
pub mod experiment;
pub mod options;
pub mod patterns;
pub mod plan;
pub mod record;
pub mod rows;
pub mod run;
pub mod sink;
pub mod strategy;
pub mod text;
pub mod trace;

pub use crate::bench::{math_bench, Bench};
pub use crate::options::Opt;
pub use crate::record::BenchRecord;
pub use crate::run::run_bench;
