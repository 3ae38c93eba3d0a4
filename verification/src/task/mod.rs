//! Cooperative tasks: identities, the ready queue and the executor.

use vstd::prelude::*;

pub mod executor;
pub mod ready_queue;

verus! {

/// The identity of a task. No two tasks alive at once share one.
#[derive(Debug, Clone, Copy, PartialEq, Eq, PartialOrd, Ord, Structural)]
pub struct TaskId(pub u64);

/// What polling a task gave.
#[derive(Debug, Clone, Copy, PartialEq, Eq, Structural)]
pub enum PollOutcome {
    /// The task has run to its end.
    Ready,
    /// The task waits to be woken.
    Pending,
}

/// Where a task stands with the executor.
#[derive(Debug, Clone, Copy, PartialEq, Eq, Structural)]
pub enum TaskState {
    /// Its identity is in the ready queue.
    Queued,
    /// It is being polled.
    Polling,
    /// It is neither queued nor polled: it waits for a wake.
    Waiting,
    /// The executor does not hold it (any more).
    Completed,
}

} // verus!
