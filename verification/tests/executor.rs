use std::any::Any;
use std::cell::{Cell, RefCell};
use std::future::Future;
use std::pin::Pin;
use std::rc::Rc;
use std::sync::{Arc, Mutex};
use std::task::{Context, Poll, Wake, Waker};

use compio_executor::config::ExecutorConfig;
use compio_executor::executor::{Executor, Turn};
use compio_executor::join::{JoinError, JoinHandle, JoinResult};
use compio_executor::oneshot::{oneshot, Oneshot};
use compio_executor::queue::Shared;
use compio_executor::slots::TaskId;
use compio_executor::task::{settle, should_poll, Concrete, PollOutcome, Pollable, Task};

type Panic = Box<dyn Any + Send>;
type Channel<T> = Rc<RefCell<Oneshot<Result<T, Panic>>>>;

/// Takes down which tasks have been woken while one was polled.
struct Woken {
    id: TaskId,
    ids: Arc<Mutex<Vec<TaskId>>>,
}

impl Wake for Woken {
    fn wake(self: Arc<Self>) {
        self.ids.lock().unwrap().push(self.id);
    }
}

/// The future of a task, and where its result goes.
struct Running<F: Future> {
    inner: Concrete<Pin<Box<F>>, Waker>,
    tx: Channel<F::Output>,
    raised: Rc<RefCell<Option<Panic>>>,
}

impl<F: Future> Pollable for Running<F> {
    fn poll(&mut self) -> Poll<()> {
        if !should_poll(&self.tx.borrow()) {
            return Poll::Ready(());
        }
        let mut cx = Context::from_waker(&self.inner.waker);
        let polled = self.inner.future.as_mut().poll(&mut cx);
        let outcome = match (self.raised.borrow_mut().take(), polled) {
            (Some(panic), _) => PollOutcome::Panicked(panic),
            (None, Poll::Pending) => PollOutcome::Pending,
            (None, Poll::Ready(output)) => PollOutcome::Ready(output),
        };
        settle(&mut self.tx.borrow_mut(), outcome)
    }
}

impl<F: Future> Drop for Running<F> {
    fn drop(&mut self) {
        self.tx.borrow_mut().close();
    }
}

/// An executor that polls futures on this thread.
#[derive(Clone)]
struct Exe {
    core: Rc<RefCell<Executor<fn()>>>,
    woken: Arc<Mutex<Vec<TaskId>>>,
    polls: Rc<Cell<usize>>,
    raised: Rc<RefCell<Option<Panic>>>,
}

impl Exe {
    fn with_config(config: ExecutorConfig<fn()>) -> Self {
        assert!(config.is_valid());
        Exe {
            core: Rc::new(RefCell::new(Executor::with_config(config))),
            woken: Arc::new(Mutex::new(Vec::new())),
            polls: Rc::new(Cell::new(0)),
            raised: Rc::new(RefCell::new(None)),
        }
    }

    fn new() -> Self {
        Exe::with_config(Executor::<fn()>::new().config)
    }

    fn spawn<F: Future + 'static>(&self, future: F) -> Join<F::Output> {
        let rx = Rc::new(RefCell::new(oneshot()));
        let tx = rx.clone();
        let ids = self.woken.clone();
        let raised = self.raised.clone();
        let mut core = self.core.borrow_mut();
        assert!(core.queue.can_push());
        let handle = core.spawn(|id, _| {
            let waker = Waker::from(Arc::new(Woken { id, ids }));
            let inner = Concrete::new(Box::pin(future), waker);
            Task::new(Box::new(Running { inner, tx, raised }))
        });
        Join { handle: Some(handle), rx, exe: self.clone() }
    }

    /// Makes the task that is being polled one that has panicked with `panic`.
    fn raise(&self, panic: Panic) {
        *self.raised.borrow_mut() = Some(panic);
    }

    fn wake(&self) {
        let ids: Vec<TaskId> = self.woken.lock().unwrap().drain(..).collect();
        let mut core = self.core.borrow_mut();
        for id in ids {
            assert!(core.queue.wakeable());
            core.queue.schedule(id);
        }
    }

    fn run(&self, id: TaskId) {
        assert!(self.core.borrow().queue.can_run(id));
        let inner = self.core.borrow_mut().queue.run(id);
        if let Some(mut inner) = inner {
            self.polls.set(self.polls.get() + 1);
            let inner = match inner.poll() {
                Poll::Pending => Some(inner),
                Poll::Ready(()) => {
                    drop(inner);
                    None
                }
            };
            self.wake();
            assert!(self.core.borrow().queue.can_settle(id, inner.is_some()));
            self.core.borrow_mut().queue.settle(id, inner);
        }
    }

    fn block_on<F: Future>(&self, future: F) -> F::Output {
        let mut future = Box::pin(future);
        let mut cx = Context::from_waker(Waker::noop());
        loop {
            let polled = future.as_mut().poll(&mut cx);
            self.wake();
            assert!(self.core.borrow().queue.wakeable());
            let turn = self.core.borrow_mut().block_on(polled);
            match turn {
                Turn::Return(output) => return output,
                Turn::Tick(mut tick) => loop {
                    let id = tick.next(&self.core.borrow().queue);
                    match id {
                        Some(id) => self.run(id),
                        None => break,
                    }
                },
            }
        }
    }
}

/// Waits for a task.
struct Join<T> {
    handle: Option<JoinHandle>,
    rx: Channel<T>,
    exe: Exe,
}

impl<T> Join<T> {
    fn cancel(&self) {
        if let Some(handle) = &self.handle {
            let mut core = self.exe.core.borrow_mut();
            assert!(core.queue.wakeable());
            handle.cancel(&mut self.rx.borrow_mut(), Shared::Local(&mut core.queue));
        }
    }

    fn detach(mut self) {
        if let Some(handle) = self.handle.take() {
            handle.detach();
        }
    }
}

impl<T> Future for Join<T> {
    type Output = JoinResult<T, Panic>;

    fn poll(self: Pin<&mut Self>, _cx: &mut Context<'_>) -> Poll<Self::Output> {
        let mut core = self.exe.core.borrow_mut();
        assert!(core.queue.wakeable());
        let handle = self.handle.as_ref().unwrap();
        handle.poll(&mut self.rx.borrow_mut(), Shared::Local(&mut core.queue))
    }
}

impl<T> Drop for Join<T> {
    fn drop(&mut self) {
        self.cancel();
    }
}

struct Yield(bool);

impl Future for Yield {
    type Output = ();

    fn poll(mut self: Pin<&mut Self>, cx: &mut Context<'_>) -> Poll<Self::Output> {
        if self.0 {
            Poll::Ready(())
        } else {
            self.0 = true;
            cx.waker().wake_by_ref();
            Poll::Pending
        }
    }
}

async fn yield_now() {
    Yield(false).await
}

#[test]
fn test_executor_runs_to_completion() {
    let exe = Exe::new();
    let spawner = exe.clone();
    exe.block_on(async move {
        let values = Rc::new(RefCell::new(Vec::new()));

        let a = {
            let values = values.clone();
            spawner.spawn(async move {
                for i in 0..5 {
                    values.borrow_mut().push(("a", i));
                    yield_now().await;
                }
                10usize
            })
        };

        let b = {
            let values = values.clone();
            spawner.spawn(async move {
                for i in 0..3 {
                    values.borrow_mut().push(("b", i));
                    yield_now().await;
                }
                20usize
            })
        };

        let ra = a.await.0.unwrap();
        let rb = b.await.0.unwrap();

        assert_eq!(ra, 10);
        assert_eq!(rb, 20);

        let values = values.borrow();
        assert_eq!(values.iter().filter(|(t, _)| *t == "a").count(), 5);
        assert_eq!(values.iter().filter(|(t, _)| *t == "b").count(), 3);
    });
}

#[test]
fn test_cancel_before_poll_returns_canceled() {
    let exe = Exe::new();
    let spawner = exe.clone();
    exe.block_on(async move {
        let hit = Rc::new(Cell::new(false));
        let hit_task = hit.clone();

        let handle = spawner.spawn(async move {
            hit_task.set(true);
            1usize
        });

        handle.cancel();
        let res = handle.await.0;
        assert!(matches!(res, Err(JoinError::Canceled)));
        assert!(!hit.get(), "future body should never run after cancel-before-poll");
    });
}

#[test]
fn test_cancel_during_execution_returns_canceled() {
    let exe = Exe::new();
    let spawner = exe.clone();
    exe.block_on(async move {
        let entered = Rc::new(Cell::new(false));
        let done = Rc::new(Cell::new(false));

        let entered_task = entered.clone();
        let done_task = done.clone();

        let handle = spawner.spawn(async move {
            entered_task.set(true);
            yield_now().await;
            done_task.set(true);
            42usize
        });

        while !entered.get() {
            yield_now().await;
        }

        handle.cancel();
        let res = handle.await.0;
        assert!(matches!(res, Err(JoinError::Canceled)));
        assert!(!done.get(), "future should be dropped after cancellation before completing");
    });
}

#[test]
fn test_join_handle_drop_cancels_task() {
    let exe = Exe::new();
    let spawner = exe.clone();
    exe.block_on(async move {
        let completed = Rc::new(Cell::new(false));
        let completed_task = completed.clone();

        let handle = spawner.spawn(async move {
            for _ in 0..3 {
                yield_now().await;
            }
            completed_task.set(true);
        });

        drop(handle);

        for _ in 0..8 {
            yield_now().await;
        }

        assert!(!completed.get(), "dropping JoinHandle should cancel and prevent completion");
    });
}

#[test]
fn test_panic_is_captured_in_join_error() {
    let exe = Exe::new();
    let spawner = exe.clone();
    exe.block_on(async move {
        let raiser = spawner.clone();
        let handle = spawner.spawn(async move {
            raiser.raise(Box::new("intentional panic from task"));
        });

        let res = handle.await.0;
        match res {
            Err(JoinError::Panicked(payload)) => {
                if let Some(msg) = payload.downcast_ref::<&'static str>() {
                    assert_eq!(*msg, "intentional panic from task");
                } else if let Some(msg) = payload.downcast_ref::<String>() {
                    assert_eq!(msg, "intentional panic from task");
                } else {
                    panic!("unexpected panic payload type");
                }
            }
            _ => panic!("expected panicked join error"),
        }
    });
}

#[test]
fn test_detach_allows_task_to_continue() {
    let exe = Exe::new();
    let spawner = exe.clone();
    exe.block_on(async move {
        let completed = Rc::new(Cell::new(false));
        let completed_task = completed.clone();

        let handle = spawner.spawn(async move {
            for _ in 0..4 {
                yield_now().await;
            }
            completed_task.set(true);
        });

        handle.detach();

        for _ in 0..10 {
            yield_now().await;
        }

        assert!(completed.get(), "detached task should continue running to completion");
    });
}

#[test]
fn test_multiple_cancels_are_idempotent() {
    let exe = Exe::new();
    let spawner = exe.clone();
    exe.block_on(async move {
        let ran = Rc::new(Cell::new(false));
        let ran_task = ran.clone();

        let handle = spawner.spawn(async move {
            ran_task.set(true);
            yield_now().await;
        });

        handle.cancel();
        handle.cancel();
        handle.cancel();

        let res = handle.await.0;
        assert!(matches!(res, Err(JoinError::Canceled)));
        assert!(!ran.get(), "task should not run after repeated cancels");
    });
}

#[test]
fn a_round_polls_no_more_tasks_than_it_may() {
    let mut config = Executor::<fn()>::new().config;
    config.max_interval = 2;
    let exe = Exe::with_config(config);
    let ran = Rc::new(RefCell::new(Vec::new()));
    for i in 0..3 {
        let ran = ran.clone();
        exe.spawn(async move { ran.borrow_mut().push(i) }).detach();
    }
    // The main future is polled twice, with one round in between.
    exe.block_on(yield_now());
    assert_eq!(*ran.borrow(), vec![0, 1]);
    assert_eq!(exe.polls.get(), 2);
    exe.block_on(yield_now());
    assert_eq!(*ran.borrow(), vec![0, 1, 2]);
}

#[test]
fn woken_tasks_take_turns() {
    let exe = Exe::new();
    let ran = Rc::new(RefCell::new(Vec::new()));
    for name in ["a", "b"] {
        let ran = ran.clone();
        exe.spawn(async move {
            for i in 0..3 {
                ran.borrow_mut().push((name, i));
                yield_now().await;
            }
        })
        .detach();
    }
    exe.block_on(yield_now());
    assert_eq!(
        *ran.borrow(),
        vec![("a", 0), ("b", 0), ("a", 1), ("b", 1), ("a", 2), ("b", 2)]
    );
}

#[test]
fn a_finished_main_future_ends_the_run_at_once() {
    let exe = Exe::new();
    let ran = Rc::new(Cell::new(false));
    let task = ran.clone();
    exe.spawn(async move { task.set(true) }).detach();
    assert_eq!(exe.block_on(async { 7 }), 7);
    assert!(!ran.get());
}

#[test]
fn wake_ups_of_other_threads_are_flushed() {
    let exe = Exe::new();
    let mut remote = exe.core.borrow().queue.remote();
    let join = exe.spawn(std::future::pending::<()>());
    let id = exe.core.borrow().queue.iter().head.unwrap();
    let handle = exe.core.borrow().queue.handle(id);
    // The task is run, and waits.
    exe.run(id);
    assert_eq!(exe.core.borrow().queue.iter().head, None);
    // A request goes through the channel, and takes effect when it is flushed.
    assert!(handle.schedule(Shared::Remote { remote: &mut remote, alive: true }));
    assert_eq!(exe.core.borrow().queue.iter().head, None);
    exe.core.borrow_mut().queue.flush_sync();
    assert_eq!(exe.core.borrow().queue.iter().head, Some(id));
    join.detach();
}

#[test]
fn scheduling_takes_other_threads_along() {
    let exe = Exe::new();
    let mut remote = exe.core.borrow().queue.remote();
    exe.spawn(std::future::pending::<()>()).detach();
    let a = exe.core.borrow().queue.iter().head.unwrap();
    exe.run(a);
    exe.spawn(std::future::pending::<()>()).detach();
    let b = exe.core.borrow().queue.iter().head.unwrap();
    exe.run(b);
    assert_eq!(remote.schedule(b), Ok(()));
    // Both are woken, the one of the other thread first.
    assert!(exe.core.borrow_mut().queue.schedule(a));
    let core = exe.core.borrow();
    let mut iter = core.queue.iter();
    assert_eq!(iter.next(&core.queue), Some(b));
    assert_eq!(iter.next(&core.queue), Some(a));
    assert_eq!(iter.next(&core.queue), None);
}

#[test]
fn nobody_is_woken_once_the_executor_is_gone() {
    let exe = Exe::new();
    let mut remote = exe.core.borrow().queue.remote();
    let join = exe.spawn(std::future::pending::<()>());
    let id = exe.core.borrow().queue.iter().head.unwrap();
    let handle = exe.core.borrow().queue.handle(id);
    assert!(handle.is_local(&Shared::Local(&mut exe.core.borrow_mut().queue)));
    assert!(!handle.is_local(&Shared::Remote { remote: &mut remote, alive: true }));
    assert!(!handle.is_local(&Shared::Dropped));
    join.detach();
    drop(exe);
    assert!(!handle.schedule(Shared::Dropped));
    assert!(!handle.schedule(Shared::Remote { remote: &mut remote, alive: true }));
    assert_eq!(remote.schedule(id), Err(id));
}

#[test]
fn a_task_that_is_gone_cannot_be_scheduled() {
    let exe = Exe::new();
    exe.spawn(async {}).detach();
    let id = exe.core.borrow().queue.iter().head.unwrap();
    assert!(exe.core.borrow_mut().queue.schedule(id));
    exe.run(id);
    assert!(!exe.core.borrow_mut().queue.schedule(id));
    // Running it again does nothing.
    let polls = exe.polls.get();
    exe.run(id);
    assert_eq!(exe.polls.get(), polls);
}

#[test]
fn a_running_task_must_not_be_run_again() {
    let exe = Exe::new();
    exe.spawn(std::future::pending::<()>()).detach();
    let id = exe.core.borrow().queue.iter().head.unwrap();
    let inner = exe.core.borrow_mut().queue.run(id);
    assert!(inner.is_some());
    assert!(!exe.core.borrow().queue.can_run(id));
    exe.core.borrow_mut().queue.settle(id, inner);
    assert!(exe.core.borrow().queue.can_run(id));
    exe.core.borrow_mut().queue.settle(id, None);
    assert!(!exe.core.borrow().queue.can_settle(id, true));
    assert!(exe.core.borrow().queue.can_settle(id, false));
}

#[test]
fn the_usual_setup() {
    let config: ExecutorConfig<u8> = ExecutorConfig::default();
    assert_eq!(config.sync_queue_size, 64);
    assert_eq!(config.local_queue_size, 63);
    assert_eq!(config.max_interval, 32);
    assert_eq!(config.extra, None);
    assert!(config.is_valid());
    assert!(!ExecutorConfig { sync_queue_size: 1 << 31, ..config }.is_valid());
    assert!(!ExecutorConfig { local_queue_size: usize::MAX, ..config }.is_valid());
    let config = ExecutorConfig { max_interval: 5, extra: Some(9), ..config };
    let executor = Executor::with_config(config);
    assert_eq!(executor.config.max_interval, 5);
    assert_eq!(executor.config.extra, Some(9));
    assert_eq!(executor.tick().left, 5);
    assert_eq!(executor.tick().iter.head, None);
}

#[test]
fn the_hot_tasks_come_before_the_cold_ones() {
    let exe = Exe::new();
    exe.spawn(std::future::pending::<()>()).detach();
    let a = exe.core.borrow().queue.iter().head.unwrap();
    exe.run(a);
    exe.spawn(std::future::pending::<()>()).detach();
    let b = exe.core.borrow().queue.iter().head.unwrap();
    exe.spawn(std::future::pending::<()>()).detach();
    let core = exe.core.borrow();
    let mut tick = core.tick();
    assert_eq!(tick.next(&core.queue), Some(b));
    let c = tick.next(&core.queue).unwrap();
    assert!(c != a && c != b);
    assert_eq!(tick.next(&core.queue), Some(a));
    assert_eq!(tick.next(&core.queue), None);
    assert_eq!(tick.next(&core.queue), None);
}

#[test]
fn wake_ups_of_other_threads_are_flushed_in_order() {
    let exe = Exe::new();
    let mut remote = exe.core.borrow().queue.remote();
    let mut ids = Vec::new();
    for _ in 0..3 {
        exe.spawn(std::future::pending::<()>()).detach();
        let id = exe.core.borrow().queue.iter().head.unwrap();
        exe.run(id);
        ids.push(id);
    }
    for i in [2, 0, 1, 0] {
        assert_eq!(remote.schedule(ids[i]), Ok(()));
    }
    exe.core.borrow_mut().queue.flush_sync();
    let core = exe.core.borrow();
    let mut iter = core.queue.iter();
    assert_eq!(iter.next(&core.queue), Some(ids[2]));
    assert_eq!(iter.next(&core.queue), Some(ids[0]));
    assert_eq!(iter.next(&core.queue), Some(ids[1]));
    assert_eq!(iter.next(&core.queue), None);
}

struct Idle;

impl Pollable for Idle {
    fn poll(&mut self) -> Poll<()> {
        Poll::Pending
    }
}

#[test]
fn what_is_attached_is_made_once_for_each_task() {
    let made = Cell::new(0);
    let extra = || {
        made.set(made.get() + 1);
        made.get()
    };
    let mut config = ExecutorConfig::default();
    config.extra = Some(extra);
    let mut executor = Executor::with_config(config);
    let mut attached = Vec::new();
    for _ in 0..3 {
        assert!(executor.queue.can_push());
        executor.spawn(|_, extra| {
            attached.push(extra);
            Task::new(Box::new(Idle))
        });
    }
    assert_eq!(attached, vec![Some(1), Some(2), Some(3)]);
    assert_eq!(made.get(), 3);
}

#[test]
fn nothing_is_attached_unless_it_is_asked_for() {
    let mut executor: Executor<fn() -> u8> = Executor::new();
    let mut attached = Vec::new();
    assert!(executor.queue.can_push());
    executor.spawn(|_, extra| {
        attached.push(extra);
        Task::new(Box::new(Idle))
    });
    assert_eq!(attached, vec![None]);
}
