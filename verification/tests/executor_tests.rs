use kernel_core::multitasking::{ThreadId, ThreadIdCounter};
use kernel_core::task::executor::{
    Executor, IdleAction, RunAction, RunEvent, SpawnError, TaskWaker, READY_QUEUE_CAPACITY,
};
use kernel_core::task::{PollOutcome, TaskId};

#[test]
fn new_executor_is_empty_and_idle() {
    let mut executor = Executor::new();
    assert_eq!(executor.ready_len(), 0);
    assert!(!executor.is_queue_full());
    assert!(!executor.has_task(TaskId(0)));
    executor.begin_pass();
    assert_eq!(executor.run_ready_tasks(), None);
    assert_eq!(executor.sleep_idle(), IdleAction::EnableInterruptsAndHalt);
}

#[test]
fn one_task_completes_and_one_waits_for_a_wake() {
    let a = TaskId(1);
    let b = TaskId(2);
    let mut executor = Executor::new();
    executor.spawn(a);
    executor.spawn(b);
    assert!(executor.has_task(a));
    assert!(executor.has_task(b));
    assert_eq!(executor.ready_len(), 2);

    // First pass: A completes, B stays pending.
    executor.begin_pass();
    assert_eq!(executor.run_ready_tasks(), Some(a));
    assert!(executor.has_waker(a));
    executor.complete_poll(PollOutcome::Ready);
    assert!(!executor.has_task(a));
    assert!(!executor.has_waker(a));
    assert_eq!(executor.run_ready_tasks(), Some(b));
    executor.complete_poll(PollOutcome::Pending);
    assert_eq!(executor.run_ready_tasks(), None);
    assert!(executor.has_task(b));
    assert!(executor.has_waker(b));
    assert_eq!(executor.ready_len(), 0);
    assert_eq!(executor.sleep_idle(), IdleAction::EnableInterruptsAndHalt);

    // B is woken and completes in the second pass.
    TaskWaker::new(b).wake_task(&mut executor);
    assert_eq!(executor.ready_len(), 1);
    assert_eq!(executor.sleep_idle(), IdleAction::EnableInterrupts);
    executor.begin_pass();
    assert_eq!(executor.run_ready_tasks(), Some(b));
    executor.complete_poll(PollOutcome::Ready);
    assert_eq!(executor.run_ready_tasks(), None);
    assert!(!executor.has_task(b));
    assert!(!executor.has_waker(b));
    assert_eq!(executor.ready_len(), 0);
}

#[test]
fn run_steps_through_the_same_story() {
    let a = TaskId(10);
    let b = TaskId(20);
    let mut executor = Executor::new();
    executor.spawn(a);
    executor.spawn(b);
    assert_eq!(executor.run(RunEvent::Resumed), RunAction::Poll(a));
    assert_eq!(executor.run(RunEvent::Polled(PollOutcome::Ready)), RunAction::Poll(b));
    assert_eq!(executor.run(RunEvent::Polled(PollOutcome::Pending)), RunAction::Sleep);
    assert_eq!(executor.sleep_idle(), IdleAction::EnableInterruptsAndHalt);
    executor.wake(b);
    assert_eq!(executor.run(RunEvent::Resumed), RunAction::Poll(b));
    assert_eq!(executor.run(RunEvent::Polled(PollOutcome::Ready)), RunAction::Sleep);
    assert!(!executor.has_task(a));
    assert!(!executor.has_task(b));
    assert_eq!(executor.run(RunEvent::Resumed), RunAction::Sleep);
}

#[test]
fn tasks_are_polled_in_the_order_they_became_ready() {
    let mut executor = Executor::new();
    for id in [7u64, 3, 9, 1] {
        executor.spawn(TaskId(id));
    }
    executor.begin_pass();
    for id in [7u64, 3, 9, 1] {
        assert_eq!(executor.run_ready_tasks(), Some(TaskId(id)));
        executor.complete_poll(PollOutcome::Pending);
    }
    assert_eq!(executor.run_ready_tasks(), None);
    executor.wake(TaskId(9));
    executor.wake(TaskId(7));
    executor.begin_pass();
    assert_eq!(executor.run_ready_tasks(), Some(TaskId(9)));
    executor.complete_poll(PollOutcome::Pending);
    assert_eq!(executor.run_ready_tasks(), Some(TaskId(7)));
}

#[test]
fn duplicate_identity_is_seen_before_spawning() {
    let mut executor = Executor::new();
    let id = TaskId(42);
    assert!(!executor.has_task(id));
    executor.spawn(id);
    assert!(executor.has_task(id));
    assert!(!executor.has_task(TaskId(43)));
}

#[test]
fn ready_queue_is_full_at_capacity() {
    assert_eq!(READY_QUEUE_CAPACITY, 100);
    let mut executor = Executor::new();
    for id in 0..100u64 {
        assert!(!executor.is_queue_full());
        executor.spawn(TaskId(id));
    }
    assert!(executor.is_queue_full());
    assert_eq!(executor.ready_len(), 100);
    // Nothing was dropped: all hundred come out, in order.
    executor.begin_pass();
    for id in 0..100u64 {
        assert_eq!(executor.run_ready_tasks(), Some(TaskId(id)));
        executor.complete_poll(PollOutcome::Pending);
    }
    assert_eq!(executor.run_ready_tasks(), None);
    assert!(!executor.is_queue_full());
}

#[test]
fn wakes_fill_the_queue_too() {
    let mut executor = Executor::new();
    executor.spawn(TaskId(5));
    for _ in 0..99 {
        executor.wake(TaskId(5));
    }
    assert!(executor.is_queue_full());
    assert_eq!(executor.ready_len(), 100);
}

#[test]
fn identities_of_tasks_that_are_gone_are_passed_over() {
    let mut executor = Executor::new();
    executor.wake(TaskId(99));
    executor.spawn(TaskId(1));
    executor.wake(TaskId(98));
    executor.begin_pass();
    assert_eq!(executor.run_ready_tasks(), Some(TaskId(1)));
    executor.wake(TaskId(1));
    executor.complete_poll(PollOutcome::Ready);
    // The wake of the finished task is still queued, but belongs to the next pass.
    assert_eq!(executor.run_ready_tasks(), None);
    assert_eq!(executor.ready_len(), 1);
    executor.begin_pass();
    assert_eq!(executor.run_ready_tasks(), None);
    assert_eq!(executor.ready_len(), 0);
    assert!(!executor.has_waker(TaskId(99)));
}

#[test]
fn task_that_wakes_itself_waits_for_the_next_pass() {
    let mut executor = Executor::new();
    let id = TaskId(4);
    executor.spawn(id);
    executor.begin_pass();
    assert_eq!(executor.run_ready_tasks(), Some(id));
    executor.wake(id);
    executor.complete_poll(PollOutcome::Pending);
    assert_eq!(executor.run_ready_tasks(), None);
    assert_eq!(executor.ready_len(), 1);
    assert_eq!(executor.sleep_idle(), IdleAction::EnableInterrupts);
    executor.begin_pass();
    assert_eq!(executor.run_ready_tasks(), Some(id));
}

#[test]
fn waker_keeps_its_task() {
    let waker = TaskWaker::new(TaskId(77));
    assert_eq!(waker.task_id, TaskId(77));
    let mut executor = Executor::new();
    waker.wake_task(&mut executor);
    waker.wake_task(&mut executor);
    assert_eq!(executor.ready_len(), 2);
}

#[test]
fn thread_ids_count_up_from_zero() {
    let mut counter = ThreadIdCounter::new();
    let first = ThreadId::new(&mut counter);
    let second = ThreadId::new(&mut counter);
    let third = ThreadId::new(&mut counter);
    assert_eq!(first.as_u64(), 0);
    assert_eq!(second.as_u64(), 1);
    assert_eq!(third.as_u64(), 2);
    assert!(first < second);
    assert_ne!(second, third);
}

#[test]
fn spawning_an_identity_twice_is_refused() {
    let mut executor = Executor::new();
    assert_eq!(executor.try_spawn(TaskId(8)), Ok(()));
    assert_eq!(executor.try_spawn(TaskId(8)), Err(SpawnError::TaskExists));
    // The refusal queued nothing.
    assert_eq!(executor.ready_len(), 1);
    assert!(executor.has_task(TaskId(8)));
    // Once the task is gone its identity is free again.
    assert_eq!(executor.run(RunEvent::Resumed), RunAction::Poll(TaskId(8)));
    assert_eq!(executor.run(RunEvent::Polled(PollOutcome::Ready)), RunAction::Sleep);
    assert_eq!(executor.try_spawn(TaskId(8)), Ok(()));
}

#[test]
fn spawning_into_a_full_queue_is_refused() {
    let mut executor = Executor::new();
    for id in 0..100u64 {
        assert_eq!(executor.try_spawn(TaskId(id)), Ok(()));
    }
    assert_eq!(executor.try_spawn(TaskId(100)), Err(SpawnError::QueueFull));
    assert!(!executor.has_task(TaskId(100)));
    assert_eq!(executor.ready_len(), 100);
    // A known identity is reported as such, full queue or not.
    assert_eq!(executor.try_spawn(TaskId(5)), Err(SpawnError::TaskExists));
    // Room for one again after one is taken out.
    executor.begin_pass();
    assert_eq!(executor.run_ready_tasks(), Some(TaskId(0)));
    executor.complete_poll(PollOutcome::Pending);
    assert_eq!(executor.try_spawn(TaskId(100)), Ok(()));
    assert_eq!(executor.try_spawn(TaskId(101)), Err(SpawnError::QueueFull));
}

#[test]
fn waking_into_a_full_queue_is_refused() {
    let mut executor = Executor::new();
    for _ in 0..100 {
        assert!(executor.try_wake(TaskId(1)));
    }
    assert!(!executor.try_wake(TaskId(1)));
    assert!(!executor.try_wake(TaskId(2)));
    assert_eq!(executor.ready_len(), 100);
}
