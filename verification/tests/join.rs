use std::task::Poll;

use compio_executor::executor::Executor;
use compio_executor::join::{JoinError, JoinHandle, JoinResult, ResumeUnwind};
use compio_executor::oneshot::{oneshot, Oneshot};
use compio_executor::queue::Shared;
use compio_executor::task::{settle, should_poll, Concrete, PollOutcome, Pollable, Task};

type Channel = Oneshot<Result<u8, &'static str>>;

struct Forever;

impl Pollable for Forever {
    fn poll(&mut self) -> Poll<()> {
        Poll::Pending
    }
}

fn spawned() -> (Executor<fn()>, JoinHandle) {
    let mut executor = Executor::new();
    let handle = executor.spawn(|_, _| Task::new(Box::new(Forever)));
    (executor, handle)
}

#[test]
fn a_value_is_received_once() {
    let mut channel = oneshot();
    assert_eq!(channel.poll(), Poll::Pending);
    channel.send(4);
    channel.close();
    assert_eq!(channel.poll(), Poll::Ready(Some(4)));
    assert_eq!(channel.poll(), Poll::Ready(None));
}

#[test]
fn a_sender_that_goes_is_noticed() {
    let mut channel: Oneshot<u8> = oneshot();
    channel.close();
    assert_eq!(channel.poll(), Poll::Ready(None));
}

#[test]
fn canceling_is_idempotent() {
    let mut channel: Oneshot<u8> = oneshot();
    assert!(!channel.is_canceled());
    assert!(should_poll(&channel));
    channel.set_canceled();
    channel.set_canceled();
    assert!(channel.is_canceled());
    assert!(!should_poll(&channel));
    assert_eq!(channel.poll(), Poll::Pending);
}

#[test]
fn outcomes_are_sent() {
    let mut channel: Channel = oneshot();
    assert_eq!(settle(&mut channel, PollOutcome::Pending), Poll::Pending);
    assert_eq!(channel.poll(), Poll::Pending);
    assert_eq!(settle(&mut channel, PollOutcome::Ready(1)), Poll::Ready(()));
    assert_eq!(channel.poll(), Poll::Ready(Some(Ok(1))));
    assert_eq!(settle(&mut channel, PollOutcome::Panicked("no")), Poll::Ready(()));
    assert_eq!(channel.poll(), Poll::Ready(Some(Err("no"))));
}

#[test]
fn a_future_is_kept_with_its_waker() {
    let concrete = Concrete::new("future", "waker");
    assert_eq!(concrete.future, "future");
    assert_eq!(concrete.waker, "waker");
}

#[test]
fn results_are_handed_over() {
    let (mut executor, handle) = spawned();
    let mut rx: Channel = oneshot();
    rx.send(Ok(3));
    let shared = Shared::Local(&mut executor.queue);
    assert_eq!(handle.poll(&mut rx, shared), Poll::Ready(JoinResult(Ok(3))));
    rx.send(Err("no"));
    assert_eq!(
        handle.poll(&mut rx, Shared::Dropped),
        Poll::Ready(JoinResult(Err(JoinError::Panicked("no"))))
    );
    rx.close();
    let mut remote = executor.queue.remote();
    assert_eq!(
        handle.poll(&mut rx, Shared::Remote { remote: &mut remote, alive: true }),
        Poll::Ready(JoinResult(Err(JoinError::Canceled)))
    );
}

#[test]
fn waiting_wakes_the_task() {
    let (mut executor, handle) = spawned();
    let mut rx: Channel = oneshot();
    let id = executor.queue.iter().head.unwrap();
    let inner = executor.queue.run(id);
    executor.queue.settle(id, inner);
    assert_eq!(executor.queue.iter().head, None);
    assert_eq!(handle.poll(&mut rx, Shared::Local(&mut executor.queue)), Poll::Pending);
    assert_eq!(executor.queue.iter().head, Some(id));
    let mut remote = executor.queue.remote();
    assert_eq!(handle.poll(&mut rx, Shared::Remote { remote: &mut remote, alive: true }), Poll::Pending);
    let canceled = Poll::Ready(JoinResult(Err(JoinError::Canceled)));
    assert_eq!(handle.poll(&mut rx, Shared::Dropped), canceled);
    // A task that has left the queue will not leave a result.
    executor.queue.settle(id, None);
    assert_eq!(handle.poll(&mut rx, Shared::Local(&mut executor.queue)), canceled);
    drop(executor);
    assert_eq!(handle.poll(&mut rx, Shared::Remote { remote: &mut remote, alive: true }), canceled);
}

#[test]
fn canceling_wakes_the_task() {
    let (mut executor, handle) = spawned();
    let mut rx: Channel = oneshot();
    let id = executor.queue.iter().head.unwrap();
    let inner = executor.queue.run(id);
    executor.queue.settle(id, inner);
    assert!(!handle.is_canceled(&rx));
    handle.cancel(&mut rx, Shared::Local(&mut executor.queue));
    assert!(handle.is_canceled(&rx));
    assert!(!should_poll(&rx));
    assert_eq!(executor.queue.iter().head, Some(id));
}

#[test]
fn a_detached_task_is_not_canceled() {
    let (mut executor, handle) = spawned();
    let rx: Channel = oneshot();
    let id = executor.queue.iter().head.unwrap();
    let handle = handle.detach();
    assert!(should_poll(&rx));
    assert!(handle.schedule(Shared::Local(&mut executor.queue)));
    assert_eq!(executor.queue.iter().head, Some(id));
}

#[test]
fn resuming_without_a_panic() {
    let done: Result<u8, JoinError<&str>> = Ok(3);
    assert_eq!(done.resume_unwind(), Some(3));
    let canceled: Result<u8, JoinError<&str>> = Err(JoinError::Canceled);
    assert_eq!(canceled.resume_unwind(), None);
}

#[test]
fn a_channel_is_pending_until_there_is_news() {
    let mut channel = oneshot();
    assert!(channel.is_pending());
    channel.send(4);
    assert!(!channel.is_pending());
    assert_eq!(channel.poll(), Poll::Ready(Some(4)));
    assert!(channel.is_pending());
    channel.close();
    assert!(!channel.is_pending());
}

#[test]
fn canceling_and_waiting_from_another_thread_go_through_the_channel() {
    let (mut executor, handle) = spawned();
    let mut rx: Channel = oneshot();
    let mut remote = executor.queue.remote();
    let id = executor.queue.iter().head.unwrap();
    let inner = executor.queue.run(id);
    executor.queue.settle(id, inner);
    handle.cancel(&mut rx, Shared::Remote { remote: &mut remote, alive: true });
    assert!(handle.is_canceled(&rx));
    assert_eq!(executor.queue.iter().head, None);
    executor.queue.flush_sync();
    assert_eq!(executor.queue.iter().head, Some(id));
    let inner = executor.queue.run(id);
    executor.queue.settle(id, inner);
    assert_eq!(handle.poll(&mut rx, Shared::Remote { remote: &mut remote, alive: true }), Poll::Pending);
    assert_eq!(executor.queue.iter().head, None);
    executor.queue.flush_sync();
    assert_eq!(executor.queue.iter().head, Some(id));
}

#[test]
fn nothing_is_sent_for_a_task_that_is_gone_or_has_a_result() {
    let (mut executor, handle) = spawned();
    let mut remote = executor.queue.remote();
    let id = executor.queue.iter().head.unwrap();
    let inner = executor.queue.run(id);
    executor.queue.settle(id, inner);
    let canceled = Poll::Ready(JoinResult(Err(JoinError::Canceled)));
    let mut rx: Channel = oneshot();
    // A task that is gone is not asked for.
    let gone = Shared::Remote { remote: &mut remote, alive: false };
    assert_eq!(handle.poll(&mut rx, gone), canceled);
    let gone = Shared::Remote { remote: &mut remote, alive: false };
    handle.cancel(&mut rx, gone);
    assert!(rx.is_canceled());
    // Nor is one whose result is known.
    rx.send(Ok(5));
    let there = Shared::Remote { remote: &mut remote, alive: true };
    assert_eq!(handle.poll(&mut rx, there), Poll::Ready(JoinResult(Ok(5))));
    executor.queue.flush_sync();
    assert_eq!(executor.queue.iter().head, None);
    let name = handle.detach();
    assert!(!name.schedule(Shared::Remote { remote: &mut remote, alive: false }));
    executor.queue.flush_sync();
    assert_eq!(executor.queue.iter().head, None);
    assert!(name.schedule(Shared::Remote { remote: &mut remote, alive: true }));
    executor.queue.flush_sync();
    assert_eq!(executor.queue.iter().head, Some(id));
}

#[test]
fn what_is_put_back_into_a_task_is_taken_next() {
    let mut task = Task::new(Box::new(Forever));
    let inner = task.take().unwrap();
    assert!(task.take().is_none());
    task.reset(inner);
    assert!(task.take().is_some());
    assert!(task.take().is_none());
}
