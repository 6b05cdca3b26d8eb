//! Parallelization contracts: how the records of a dataflow edge move between
//! workers, and the instrumentation that stamps and traces every movement.
//!
//! A contract must not alter the number of records at any logical time: progress
//! tracking counts on that number being the same whichever contract an edge uses.
use vstd::prelude::*;

pub mod message;
pub mod logging;
pub mod fabric;
pub mod logged;
pub mod exchange;
pub mod contracts;
pub mod conservation;
pub mod ordering;

verus! {

} // verus!
