//! A coverage gate: the decisions of a run that drives a project's tests under coverage
//! instrumentation, merges the raw profiles, finds the test binaries, reads the coverage
//! summary and compares it with the required minimums. Running the commands and touching
//! the file system is left to the caller, which performs each `pipeline::Action`.
use vstd::prelude::*;

pub mod artifacts;
pub mod decimal;
pub mod discover;
pub mod gate;
pub mod pipeline;
pub mod report;
pub mod text;

verus! {

} // verus!
