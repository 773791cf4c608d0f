//! What the run coordinator needs from its surroundings: a clock, a way to
//! wait, and the answer of the single invocation slot when it is taken.

use vstd::prelude::*;
use vstd::string::*;

verus! {

/// Wall clock of a run, injectable for deterministic tests.
pub trait RunClock {
    /// Current Unix time in milliseconds.
    fn now_millis(&self) -> u64;
}

/// Waiting between a retry plan and its attempt, injectable for tests.
pub trait RunSleeper {
    /// Blocks for the given milliseconds.
    fn sleep_millis(&self, millis: u64);
}

/// Another invocation already holds the single execution slot.
#[derive(Debug, Clone, Copy, PartialEq, Eq, Structural)]
pub struct ExecutionBusy;

impl ExecutionBusy {
    /// The reason, as surfaces print it.
    pub fn message(&self) -> (m: &'static str)
        ensures
            m@ == "another route invocation is already active"@,
    {
        "another route invocation is already active"
    }
}

} // verus!
