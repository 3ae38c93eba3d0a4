//! The bounded ready queue of task identities, kept in a
//! `crossbeam_queue::ArrayQueue`.

use crossbeam_queue::ArrayQueue;
use vstd::prelude::*;

verus! {

#[verifier::external_type_specification]
#[verifier::external_body]
#[verifier::reject_recursive_types(T)]
pub struct ExArrayQueue<T>(ArrayQueue<T>);

/// The identities held by a queue, the one pushed first at index 0.
pub uninterp spec fn queue_items(q: ArrayQueue<u64>) -> Seq<u64>;

/// The capacity a queue was created with.
pub uninterp spec fn queue_capacity(q: ArrayQueue<u64>) -> nat;

/// The largest capacity this crate creates a queue with.
pub const MAX_QUEUE_CAPACITY: usize = 65536;

/// `ArrayQueue::new`: a queue of the given capacity that holds nothing.
/// The call panics on a capacity of zero, which is left out here.
#[verifier::external_body]
pub(crate) fn queue_new(cap: usize) -> (q: ArrayQueue<u64>)
    requires
        0 < cap <= MAX_QUEUE_CAPACITY,
    ensures
        queue_items(q) == Seq::<u64>::empty(),
        queue_capacity(q) == cap,
{
    ArrayQueue::new(cap)
}

/// `ArrayQueue::push`: appends `id` unless the queue holds as many
/// elements as its capacity; then the queue stays as it is and `id` comes
/// back as the error.
#[verifier::external_body]
pub(crate) fn queue_push(q: &mut ArrayQueue<u64>, id: u64) -> (r: Result<(), u64>)
    ensures
        queue_capacity(*final(q)) == queue_capacity(*old(q)),
        r is Ok <==> queue_items(*old(q)).len() < queue_capacity(*old(q)),
        r is Ok ==> queue_items(*final(q)) == queue_items(*old(q)).push(id),
        r matches Err(back) ==> back == id && queue_items(*final(q)) == queue_items(*old(q)),
{
    q.push(id)
}

/// `ArrayQueue::pop`: takes out the element pushed first, or returns
/// `None` when the queue holds nothing.
#[verifier::external_body]
pub(crate) fn queue_pop(q: &mut ArrayQueue<u64>) -> (r: Option<u64>)
    ensures
        queue_capacity(*final(q)) == queue_capacity(*old(q)),
        r is None <==> queue_items(*old(q)).len() == 0,
        r is None ==> queue_items(*final(q)) == queue_items(*old(q)),
        r matches Some(id) ==> id == queue_items(*old(q))[0] && queue_items(*final(q))
            == queue_items(*old(q)).skip(1),
{
    q.pop()
}

/// `ArrayQueue::len`: the number of elements in the queue.
#[verifier::external_body]
pub(crate) fn queue_len(q: &ArrayQueue<u64>) -> (r: usize)
    ensures
        r == queue_items(*q).len(),
{
    q.len()
}

/// `ArrayQueue::is_empty`: whether the queue holds nothing.
#[verifier::external_body]
pub(crate) fn queue_is_empty(q: &ArrayQueue<u64>) -> (r: bool)
    ensures
        r == (queue_items(*q).len() == 0),
{
    q.is_empty()
}

} // verus!
