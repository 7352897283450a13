use vstd::prelude::*;

pub mod clang;
pub mod corpus;
pub mod error;
pub mod events;
pub mod executor;
pub mod feedback;
pub mod fuzzer;
pub mod input;
pub mod mopt;
pub mod mutator;
pub mod observer;
pub mod rand;
pub mod scheduler;
pub mod serialize;
pub mod stages;
pub mod state;

verus! {

/// Kind of result of one target execution; a per-execution failure is a
/// value here, never an error.
#[derive(Clone, Copy, PartialEq, Eq, Structural, Debug)]
pub enum ExitKind {
    Okay,
    Crash,
    Oom,
    Timeout,
}

} // verus!
