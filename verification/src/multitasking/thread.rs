//! The record kept of a kernel thread.

use super::ThreadId;
use crate::memory::StackBounds;
use vstd::prelude::*;

verus! {

/// A kernel thread: its identity, where its stack pointer was saved, and
/// the bounds of its stack.
#[derive(Debug)]
pub struct Thread {
    pub id: ThreadId,
    pub stack_pointer: Option<u64>,
    pub stack_bound: Option<StackBounds>,
}

} // verus!
