//! When cycles run: once, with the cycle's result as the result of the
//! process, or again and again, a fixed time apart, whatever the cycles come
//! to.

use crate::reconcile::CycleError;
use vstd::prelude::*;

verus! {

/// The time between two cycles where none is configured, in seconds.
pub const DEFAULT_INTERVAL_SECS: u64 = 300;

/// How cycles are run.
#[derive(Debug, Clone, Copy, PartialEq, Eq, Structural)]
pub enum Scheduler {
    /// One cycle, then the process ends.
    SinglePass,
    /// One cycle after the other, `interval_secs` seconds apart, for as long
    /// as the process lives.
    Continuous { interval_secs: u64 },
}

/// What follows a cycle.
#[derive(Debug, Clone, Copy, PartialEq, Eq, Structural)]
pub enum Next {
    /// The process ends with this exit code.
    Exit { code: u8 },
    /// After this many seconds the next cycle runs.
    Wait { secs: u64 },
}

impl Scheduler {
    /// The scheduler for the given choice of the operator.
    pub fn new(once: bool, interval_secs: u64) -> (r: Scheduler)
        ensures
            r == if once {
                Scheduler::SinglePass
            } else {
                Scheduler::Continuous { interval_secs }
            },
    {
        if once {
            Scheduler::SinglePass
        } else {
            Scheduler::Continuous { interval_secs }
        }
    }

    /// What follows a cycle that came to `result`.
    pub open spec fn next(self, result: Result<(), CycleError>) -> Next {
        match self {
            Scheduler::SinglePass => Next::Exit {
                code: if result is Ok {
                    0u8
                } else {
                    1u8
                },
            },
            Scheduler::Continuous { interval_secs } => Next::Wait { secs: interval_secs },
        }
    }

    /// Says what follows a cycle that came to `result`.
    ///
    /// After a single pass the process ends, with the exit code 0 if the
    /// cycle succeeded and 1 if it failed. In continuous running the next
    /// cycle follows after the interval, whether the cycle succeeded or not:
    /// no failure of a cycle ends the process.
    pub fn after_cycle(&self, result: &Result<(), CycleError>) -> (r: Next)
        ensures
            r == self.next(*result),
    {
        match self {
            Scheduler::SinglePass => match result {
                Ok(_) => Next::Exit { code: 0 },
                Err(_) => Next::Exit { code: 1 },
            },
            Scheduler::Continuous { interval_secs } => Next::Wait { secs: *interval_secs },
        }
    }
}

/// In continuous running nothing that a cycle comes to ends the process.
pub proof fn lemma_continuous_never_exits(interval_secs: u64, result: Result<(), CycleError>)
    ensures
        (Scheduler::Continuous { interval_secs }).next(result) == (Next::Wait {
            secs: interval_secs,
        }),
{
}

} // verus!
