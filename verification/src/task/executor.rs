//! The executor's bookkeeping: which tasks it holds, which are ready, and
//! what to do next. Polling a task and halting the processor are left to
//! the caller, who reports back what happened.

use super::ready_queue::{
    queue_capacity, queue_is_empty, queue_items, queue_len, queue_new, queue_pop, queue_push,
};
use super::{PollOutcome, TaskId, TaskState};
use crossbeam_queue::ArrayQueue;
use std::collections::BTreeSet;
use vstd::prelude::*;

verus! {

broadcast use vstd::std_specs::btree::group_btree_axioms;

/// How many identities the ready queue can hold.
pub const READY_QUEUE_CAPACITY: usize = 100;

/// The handle that wakes one task: it puts the task's identity back on the
/// ready queue.
#[derive(Debug, Clone, Copy, PartialEq, Eq, Structural)]
pub struct TaskWaker {
    pub task_id: TaskId,
}

impl TaskWaker {
    pub fn new(task_id: TaskId) -> (r: TaskWaker)
        ensures
            r.task_id == task_id,
    {
        TaskWaker { task_id }
    }

    /// Puts the task's identity on the ready queue of `executor`, which
    /// must have room for it.
    pub fn wake_task(&self, executor: &mut Executor)
        requires
            old(executor).wf(),
            old(executor).ready_queue().len() < READY_QUEUE_CAPACITY,
        ensures
            final(executor).wf(),
            final(executor).ready_queue() == old(executor).ready_queue().push(self.task_id.0),
            final(executor).tasks() == old(executor).tasks(),
            final(executor).wakers() == old(executor).wakers(),
            final(executor).polling() == old(executor).polling(),
            final(executor).pass_remaining() == old(executor).pass_remaining(),
    {
        let _ = queue_push(&mut executor.task_q, self.task_id.0);
    }
}

/// Why a task could not be taken in.
#[derive(Debug, Clone, Copy, PartialEq, Eq, Structural)]
pub enum SpawnError {
    /// The executor already holds a task with that identity.
    TaskExists,
    /// The ready queue has no room for the identity.
    QueueFull,
}

/// What to do with the processor when a pass over the ready queue is over.
/// Interrupts are off while this is decided.
#[derive(Debug, Clone, Copy, PartialEq, Eq, Structural)]
pub enum IdleAction {
    /// Nothing is ready: turn interrupts on and halt, in one step.
    EnableInterruptsAndHalt,
    /// Something became ready meanwhile: turn interrupts on and go on.
    EnableInterrupts,
}

/// What the caller of [`Executor::run`] reports.
#[derive(Debug, Clone, Copy, PartialEq, Eq, Structural)]
pub enum RunEvent {
    /// The executor starts, or the processor is back from the idle step.
    Resumed,
    /// The task handed out last was polled, with this outcome.
    Polled(PollOutcome),
}

/// What [`Executor::run`] asks of its caller.
#[derive(Debug, Clone, Copy, PartialEq, Eq, Structural)]
pub enum RunAction {
    /// Poll the task named and report the outcome.
    Poll(TaskId),
    /// The pass is over: do the idle step, see [`Executor::sleep_idle`].
    Sleep,
}

/// No identity among the first `k` of `queue` is that of a task in `tasks`.
pub open spec fn all_stale(queue: Seq<u64>, tasks: Set<u64>, k: int) -> bool {
    forall|j: int| 0 <= j < k ==> !tasks.contains(#[trigger] queue[j])
}

/// The executor's books: the tasks it holds, by identity, the ready
/// queue, the wake handles that exist, and how far the current pass is.
pub struct Executor {
    tasks: BTreeSet<u64>,
    task_q: ArrayQueue<u64>,
    waker_c: BTreeSet<u64>,
    polling: Option<u64>,
    pass_left: usize,
}

impl Executor {
    /// The identities of the tasks the executor holds.
    pub closed spec fn tasks(&self) -> Set<u64> {
        self.tasks@
    }

    /// The ready queue, the identity to be polled next at index 0.
    pub closed spec fn ready_queue(&self) -> Seq<u64> {
        queue_items(self.task_q)
    }

    /// The identities of the tasks whose wake handle exists.
    pub closed spec fn wakers(&self) -> Set<u64> {
        self.waker_c@
    }

    /// The task that was handed out to be polled and has not reported back.
    pub closed spec fn polling(&self) -> Option<u64> {
        self.polling
    }

    /// How many identities the current pass may still take from the queue.
    pub closed spec fn pass_remaining(&self) -> nat {
        self.pass_left as nat
    }

    /// The ready queue was made with the capacity the executor counts on.
    pub closed spec fn capacity_ok(&self) -> bool {
        queue_capacity(self.task_q) == READY_QUEUE_CAPACITY
    }

    /// The queue keeps within its capacity, a wake handle belongs to a task
    /// that is held, so does the task being polled, and a pass takes no more
    /// than the queue has.
    pub open spec fn wf(&self) -> bool {
        &&& self.capacity_ok()
        &&& self.ready_queue().len() <= READY_QUEUE_CAPACITY
        &&& self.wakers().subset_of(self.tasks())
        &&& (self.polling() matches Some(id) ==> self.tasks().contains(id))
        &&& self.pass_remaining() <= self.ready_queue().len()
    }

    /// Where the task `id` stands.
    pub open spec fn state_of(&self, id: TaskId) -> TaskState {
        if !self.tasks().contains(id.0) {
            TaskState::Completed
        } else if self.polling() == Some(id.0) {
            TaskState::Polling
        } else if self.ready_queue().contains(id.0) {
            TaskState::Queued
        } else {
            TaskState::Waiting
        }
    }

    /// An executor that holds no task.
    pub fn new() -> (r: Self)
        ensures
            r.wf(),
            r.tasks() == Set::<u64>::empty(),
            r.ready_queue() == Seq::<u64>::empty(),
            r.wakers() == Set::<u64>::empty(),
            r.polling() == None::<u64>,
            r.pass_remaining() == 0,
    {
        Executor {
            tasks: BTreeSet::new(),
            task_q: queue_new(READY_QUEUE_CAPACITY),
            waker_c: BTreeSet::new(),
            polling: None,
            pass_left: 0,
        }
    }

    /// Whether the executor holds a task with this identity.
    pub fn has_task(&self, task_id: TaskId) -> (r: bool)
        ensures
            r == self.tasks().contains(task_id.0),
    {
        self.tasks.contains(&task_id.0)
    }

    /// Whether the wake handle of the task exists.
    pub fn has_waker(&self, task_id: TaskId) -> (r: bool)
        ensures
            r == self.wakers().contains(task_id.0),
    {
        self.waker_c.contains(&task_id.0)
    }

    /// The number of identities in the ready queue.
    pub fn ready_len(&self) -> (r: usize)
        ensures
            r == self.ready_queue().len(),
    {
        queue_len(&self.task_q)
    }

    /// Whether the ready queue has no room left.
    pub fn is_queue_full(&self) -> (r: bool)
        requires
            self.wf(),
        ensures
            r == (self.ready_queue().len() == READY_QUEUE_CAPACITY),
    {
        queue_len(&self.task_q) >= READY_QUEUE_CAPACITY
    }

    /// Takes in a new task and queues it. The identity must be new to the
    /// executor and the ready queue must have room.
    pub fn spawn(&mut self, task_id: TaskId)
        requires
            old(self).wf(),
            !old(self).tasks().contains(task_id.0),
            old(self).ready_queue().len() < READY_QUEUE_CAPACITY,
        ensures
            final(self).wf(),
            final(self).tasks() == old(self).tasks().insert(task_id.0),
            final(self).tasks().contains(task_id.0),
            final(self).ready_queue() == old(self).ready_queue().push(task_id.0),
            final(self).wakers() == old(self).wakers(),
            final(self).polling() == old(self).polling(),
            final(self).pass_remaining() == old(self).pass_remaining(),
            final(self).state_of(task_id) == TaskState::Queued,
    {
        self.tasks.insert(task_id.0);
        let _ = queue_push(&mut self.task_q, task_id.0);
        proof {
            let q = old(self).ready_queue().push(task_id.0);
            assert(q[q.len() - 1] == task_id.0);
        }
    }

    /// Takes in a new task as [`Executor::spawn`] does, if it can: an
    /// identity that the executor already holds is refused, and so is any
    /// when the ready queue is full. A refusal changes nothing.
    pub fn try_spawn(&mut self, task_id: TaskId) -> (r: Result<(), SpawnError>)
        requires
            old(self).wf(),
        ensures
            final(self).wf(),
            r == if old(self).tasks().contains(task_id.0) {
                Err::<(), SpawnError>(SpawnError::TaskExists)
            } else if old(self).ready_queue().len() == READY_QUEUE_CAPACITY {
                Err::<(), SpawnError>(SpawnError::QueueFull)
            } else {
                Ok::<(), SpawnError>(())
            },
            final(self).tasks() == if r is Ok {
                old(self).tasks().insert(task_id.0)
            } else {
                old(self).tasks()
            },
            final(self).ready_queue() == if r is Ok {
                old(self).ready_queue().push(task_id.0)
            } else {
                old(self).ready_queue()
            },
            final(self).wakers() == old(self).wakers(),
            final(self).polling() == old(self).polling(),
            final(self).pass_remaining() == old(self).pass_remaining(),
    {
        if self.has_task(task_id) {
            Err(SpawnError::TaskExists)
        } else if self.is_queue_full() {
            Err(SpawnError::QueueFull)
        } else {
            self.spawn(task_id);
            Ok(())
        }
    }

    /// Wakes a task as [`Executor::wake`] does, if the ready queue has room.
    /// Returns whether it had; if not, nothing is changed.
    pub fn try_wake(&mut self, task_id: TaskId) -> (r: bool)
        requires
            old(self).wf(),
        ensures
            final(self).wf(),
            r == (old(self).ready_queue().len() < READY_QUEUE_CAPACITY),
            final(self).ready_queue() == if r {
                old(self).ready_queue().push(task_id.0)
            } else {
                old(self).ready_queue()
            },
            final(self).tasks() == old(self).tasks(),
            final(self).wakers() == old(self).wakers(),
            final(self).polling() == old(self).polling(),
            final(self).pass_remaining() == old(self).pass_remaining(),
    {
        if self.is_queue_full() {
            false
        } else {
            self.wake(task_id);
            true
        }
    }

    /// Wakes a task: puts its identity on the ready queue, which must have
    /// room for it.
    pub fn wake(&mut self, task_id: TaskId)
        requires
            old(self).wf(),
            old(self).ready_queue().len() < READY_QUEUE_CAPACITY,
        ensures
            final(self).wf(),
            final(self).ready_queue() == old(self).ready_queue().push(task_id.0),
            final(self).tasks() == old(self).tasks(),
            final(self).wakers() == old(self).wakers(),
            final(self).polling() == old(self).polling(),
            final(self).pass_remaining() == old(self).pass_remaining(),
            old(self).state_of(task_id) == TaskState::Waiting ==> final(self).state_of(task_id)
                == TaskState::Queued,
    {
        TaskWaker::new(task_id).wake_task(self);
        proof {
            let q = old(self).ready_queue().push(task_id.0);
            assert(q[q.len() - 1] == task_id.0);
        }
    }

    /// Begins a pass: it will take what the ready queue holds now, and
    /// leave to the next pass what is queued from here on.
    pub fn begin_pass(&mut self)
        requires
            old(self).wf(),
        ensures
            final(self).wf(),
            final(self).pass_remaining() == old(self).ready_queue().len(),
            final(self).ready_queue() == old(self).ready_queue(),
            final(self).tasks() == old(self).tasks(),
            final(self).wakers() == old(self).wakers(),
            final(self).polling() == old(self).polling(),
    {
        self.pass_left = queue_len(&self.task_q);
    }

    /// Goes on with the current pass: takes identities from the ready queue
    /// until one belongs to a task that is held, and hands that task out to
    /// be polled, its wake handle made if it had none. Identities of tasks
    /// that are gone are passed over. Returns `None` when the pass is over.
    pub fn run_ready_tasks(&mut self) -> (r: Option<TaskId>)
        requires
            old(self).wf(),
            old(self).polling() is None,
        ensures
            final(self).wf(),
            final(self).tasks() == old(self).tasks(),
            r matches Some(id) ==> final(self).state_of(id) == TaskState::Polling,
            match r {
                Some(id) => exists|k: int|
                    {
                        &&& 0 <= k < old(self).pass_remaining()
                        &&& all_stale(old(self).ready_queue(), old(self).tasks(), k)
                        &&& #[trigger] old(self).ready_queue()[k] == id.0
                        &&& old(self).tasks().contains(id.0)
                        &&& final(self).ready_queue() == old(self).ready_queue().skip(k + 1)
                        &&& final(self).pass_remaining() == old(self).pass_remaining() - k - 1
                        &&& final(self).polling() == Some(id.0)
                        &&& final(self).wakers() == old(self).wakers().insert(id.0)
                    },
                None => {
                    &&& all_stale(
                        old(self).ready_queue(),
                        old(self).tasks(),
                        old(self).pass_remaining() as int,
                    )
                    &&& final(self).ready_queue() == old(self).ready_queue().skip(
                        old(self).pass_remaining() as int,
                    )
                    &&& final(self).pass_remaining() == 0
                    &&& final(self).polling() == None::<u64>
                    &&& final(self).wakers() == old(self).wakers()
                },
            },
    {
        let ghost queue0 = self.ready_queue();
        let ghost pass0 = self.pass_remaining();
        while self.pass_left > 0
            invariant
                self.wf(),
                self.polling() is None,
                self.tasks() == old(self).tasks(),
                self.wakers() == old(self).wakers(),
                queue0 == old(self).ready_queue(),
                pass0 == old(self).pass_remaining(),
                self.pass_remaining() <= pass0 <= queue0.len(),
                self.ready_queue() == queue0.skip(pass0 - self.pass_remaining()),
                all_stale(queue0, self.tasks(), pass0 - self.pass_remaining()),
            decreases self.pass_left,
        {
            let ghost k = pass0 - self.pass_remaining();
            self.pass_left = self.pass_left - 1;
            let popped = queue_pop(&mut self.task_q);
            proof {
                assert(queue0.skip(k)[0] == queue0[k]);
                assert(queue0.skip(k).skip(1) =~= queue0.skip(k + 1));
            }
            match popped {
                Some(id) => {
                    if self.tasks.contains(&id) {
                        self.waker_c.insert(id);
                        self.polling = Some(id);
                        assert(queue0[k] == id);
                        return Some(TaskId(id));
                    }
                },
                None => {},
            }
        }
        None
    }

    /// Takes the outcome of polling the task handed out last. A task that
    /// is ready leaves the executor, and its wake handle with it; one that
    /// is pending stays, and waits unless it is queued again.
    pub fn complete_poll(&mut self, outcome: PollOutcome)
        requires
            old(self).wf(),
            old(self).polling() is Some,
        ensures
            final(self).wf(),
            final(self).polling() == None::<u64>,
            final(self).ready_queue() == old(self).ready_queue(),
            final(self).pass_remaining() == old(self).pass_remaining(),
            outcome == PollOutcome::Ready ==> final(self).tasks() == old(self).tasks().remove(
                old(self).polling().unwrap(),
            ) && final(self).wakers() == old(self).wakers().remove(old(self).polling().unwrap()),
            outcome == PollOutcome::Pending ==> final(self).tasks() == old(self).tasks()
                && final(self).wakers() == old(self).wakers(),
            final(self).state_of(TaskId(old(self).polling().unwrap())) == match outcome {
                PollOutcome::Ready => TaskState::Completed,
                PollOutcome::Pending => if old(self).ready_queue().contains(
                    old(self).polling().unwrap(),
                ) {
                    TaskState::Queued
                } else {
                    TaskState::Waiting
                },
            },
    {
        match (self.polling, outcome) {
            (Some(id), PollOutcome::Ready) => {
                self.tasks.remove(&id);
                self.waker_c.remove(&id);
            },
            _ => {},
        }
        self.polling = None;
    }

    /// One step of the executor's endless loop. On `Resumed` a new pass
    /// begins; on `Polled` the outcome is taken in. Then the pass goes on:
    /// the next task to poll is handed out, or, the pass being over, the
    /// caller is sent to the idle step.
    pub fn run(&mut self, event: RunEvent) -> (action: RunAction)
        requires
            old(self).wf(),
            event is Polled <==> old(self).polling() is Some,
        ensures
            final(self).wf(),
            ({
                let queue = old(self).ready_queue();
                let limit = match event {
                    RunEvent::Resumed => queue.len(),
                    RunEvent::Polled(_) => old(self).pass_remaining(),
                };
                let tasks = match event {
                    RunEvent::Polled(PollOutcome::Ready) => old(self).tasks().remove(
                        old(self).polling().unwrap(),
                    ),
                    _ => old(self).tasks(),
                };
                let wakers = match event {
                    RunEvent::Polled(PollOutcome::Ready) => old(self).wakers().remove(
                        old(self).polling().unwrap(),
                    ),
                    _ => old(self).wakers(),
                };
                &&& final(self).tasks() == tasks
                &&& match action {
                    RunAction::Poll(id) => exists|k: int|
                        {
                            &&& 0 <= k < limit
                            &&& all_stale(queue, tasks, k)
                            &&& #[trigger] queue[k] == id.0
                            &&& tasks.contains(id.0)
                            &&& final(self).ready_queue() == queue.skip(k + 1)
                            &&& final(self).pass_remaining() == limit - k - 1
                            &&& final(self).polling() == Some(id.0)
                            &&& final(self).wakers() == wakers.insert(id.0)
                        },
                    RunAction::Sleep => {
                        &&& all_stale(queue, tasks, limit as int)
                        &&& final(self).ready_queue() == queue.skip(limit as int)
                        &&& final(self).pass_remaining() == 0
                        &&& final(self).polling() == None::<u64>
                        &&& final(self).wakers() == wakers
                    },
                }
            }),
    {
        match event {
            RunEvent::Resumed => self.begin_pass(),
            RunEvent::Polled(outcome) => self.complete_poll(outcome),
        }
        match self.run_ready_tasks() {
            Some(id) => RunAction::Poll(id),
            None => RunAction::Sleep,
        }
    }

    /// Decides the idle step. The caller has turned interrupts off before
    /// the call, so that no wake can slip in between this decision and the
    /// halt.
    pub fn sleep_idle(&self) -> (r: IdleAction)
        ensures
            r == if self.ready_queue().len() == 0 {
                IdleAction::EnableInterruptsAndHalt
            } else {
                IdleAction::EnableInterrupts
            },
    {
        if queue_is_empty(&self.task_q) {
            IdleAction::EnableInterruptsAndHalt
        } else {
            IdleAction::EnableInterrupts
        }
    }
}

} // verus!
