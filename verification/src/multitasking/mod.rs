//! Kernel threads: identities and the thread record.

use vstd::prelude::*;

pub mod thread;

verus! {

/// The identity of a kernel thread.
#[derive(Debug, Clone, Copy, PartialEq, Eq, PartialOrd, Ord, Structural)]
pub struct ThreadId(u64);

/// The counter that thread identities are drawn from.
pub struct ThreadIdCounter {
    next: u64,
}

impl ThreadIdCounter {
    /// The number the next identity will carry.
    pub closed spec fn next_id(&self) -> u64 {
        self.next
    }

    /// A counter that starts at zero.
    pub fn new() -> (r: Self)
        ensures
            r.next_id() == 0,
    {
        ThreadIdCounter { next: 0 }
    }
}

impl ThreadId {
    /// The number behind the identity.
    pub closed spec fn value(&self) -> u64 {
        self.0
    }

    pub fn as_u64(&self) -> (r: u64)
        ensures
            r == self.value(),
    {
        self.0
    }

    /// Draws the next identity from `counter`, which moves on by one and
    /// wraps round to zero after the largest number.
    pub fn new(counter: &mut ThreadIdCounter) -> (r: Self)
        ensures
            r.value() == old(counter).next_id(),
            final(counter).next_id() == if old(counter).next_id() == u64::MAX {
                0
            } else {
                old(counter).next_id() + 1
            },
    {
        let id: u64 = counter.next;
        counter.next = id.wrapping_add(1);
        ThreadId(id)
    }
}

} // verus!
