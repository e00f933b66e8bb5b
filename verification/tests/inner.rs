use std::future::{pending, ready, Pending, Ready};
use std::task::{Poll, Waker};

use compio_executor::guard::RunningGuard;
use compio_executor::inner::{FutureState, Inner, Pollable};
use compio_executor::run_queue::make_queue;
use compio_executor::state::State;
use compio_executor::task::PollOutcome;

const FLAGS: [u8; 4] = [State::SCHEDULED, State::RUNNING, State::COMPLETED, State::CLOSED];

#[test]
fn flags_are_independent() {
    assert_eq!(FLAGS, [1, 2, 4, 8]);
    for flag in FLAGS {
        let mut state = State::empty();
        state.insert(flag);
        assert_eq!(state.is_scheduled(), flag == State::SCHEDULED);
        assert_eq!(state.is_running(), flag == State::RUNNING);
        assert_eq!(state.is_completed(), flag == State::COMPLETED);
        assert_eq!(state.is_closed(), flag == State::CLOSED);
        for other in FLAGS {
            let mut both = state;
            both.insert(other);
            assert!(both.contains(flag | other));
            both.remove(other);
            assert_eq!(both.contains(flag), flag != other);
            assert!(!both.contains(other));
        }
        state.remove(flag);
        assert_eq!(state, State::empty());
    }
}

#[test]
fn update_hands_the_state_on() {
    let mut state = State::empty();
    let was_closed = state.update(|state| {
        let was_closed = state.is_closed();
        state.insert(State::CLOSED);
        was_closed
    });
    assert!(!was_closed);
    assert!(state.is_closed());
}

struct Counter(u32);

impl Pollable for Counter {
    fn poll(&mut self, _waker: &Waker) -> Poll<()> {
        self.0 += 1;
        if self.0 < 2 {
            Poll::Pending
        } else {
            Poll::Ready(())
        }
    }
}

#[test]
fn a_task_is_marked_while_it_runs() {
    let mut state = State::empty();
    let mut counter = Counter(0);
    let guard = RunningGuard::new(&mut state, &mut counter);
    assert!(state.is_running());
    // The task is woken while it runs.
    state.insert(State::SCHEDULED);
    let opened = &mut state;
    assert_eq!(guard.poll(Waker::noop(), move |_| opened), Poll::Pending);
    assert!(!state.is_running());
    assert!(state.is_scheduled());
    let guard = RunningGuard::new(&mut state, &mut counter);
    assert!(state.is_running());
    let opened = &mut state;
    assert_eq!(guard.poll(Waker::noop(), move |_| opened), Poll::Ready(()));
    assert!(!state.is_running());
    assert_eq!(counter.0, 2);
    // The mark of a task that was not polled to its end is taken off by itself.
    let _guard = RunningGuard::new(&mut state, &mut counter);
    RunningGuard::<Counter>::release(&mut state);
    assert!(!state.is_running());
    assert!(state.is_scheduled());
    assert_eq!(counter.0, 2);
}

#[test]
fn a_pending_future_stays() {
    let mut state: FutureState<Pending<u8>, &str> = FutureState::Running(pending());
    assert!(state.running().is_some());
    assert_eq!(state.settle(PollOutcome::Pending), Poll::Pending);
    assert!(state.running().is_some());
}

#[test]
fn a_finished_future_stays_finished() {
    let mut state: FutureState<Ready<u8>, &str> = FutureState::Running(ready(3));
    assert_eq!(state.settle(PollOutcome::Ready(3)), Poll::Ready(()));
    assert!(state.running().is_none());
    assert_eq!(state.settle(PollOutcome::Ready(4)), Poll::Ready(()));
    assert_eq!(state.settle(PollOutcome::Pending), Poll::Ready(()));
    assert!(matches!(state, FutureState::Completed(Some(Ok(3)))));
}

#[test]
fn a_result_is_taken_once() {
    let (queue, _deq) = make_queue::<u8>();
    let mut inner: Inner<Ready<u8>, u8, &str, ()> = Inner::new(queue, ready(3));
    assert_eq!(*inner.state(), State::empty());
    assert_eq!(inner.take_result(), None);
    assert!(inner.poll().running().is_some());
    assert_eq!(inner.poll().settle(PollOutcome::Ready(3)), Poll::Ready(()));
    assert_eq!(inner.take_result(), Some(Ok(3)));
    assert_eq!(inner.take_result(), None);
}

#[test]
fn a_panic_is_a_result() {
    let (queue, _deq) = make_queue::<u8>();
    let mut inner: Inner<Ready<u8>, u8, &str, ()> = Inner::new(queue, ready(3));
    assert_eq!(inner.poll().settle(PollOutcome::Panicked("no")), Poll::Ready(()));
    assert_eq!(inner.take_result(), Some(Err("no")));
}

#[test]
fn a_dropped_future_has_no_result() {
    let (queue, mut deq) = make_queue::<u8>();
    let mut inner: Inner<Ready<u8>, u8, &str, ()> = Inner::new(queue, ready(3));
    inner.drop_future();
    assert!(inner.poll().running().is_none());
    assert_eq!(inner.take_result(), None);
    assert_eq!(inner.queue().push(Some(deq.local()), 9), Ok(()));
    assert_eq!(deq.pop(), Some(9));
}

#[test]
fn extras_and_wakers_are_attached() {
    let (queue, _deq) = make_queue::<u8>();
    let mut inner: Inner<Ready<u8>, u8, &str, ()> = Inner::new(queue, ready(3));
    assert!(inner.extra().is_none());
    assert!(inner.waker().is_none());
    *inner.waker() = Some(Waker::noop().clone());
    let (state, future) = inner.state_and_future();
    state.insert(State::COMPLETED);
    assert_eq!(future.settle(PollOutcome::Ready(7)), Poll::Ready(()));
    let mut inner = inner.with_extra(());
    assert_eq!(inner.extra(), Some(&mut ()));
    assert!(inner.waker().is_some());
    assert!(inner.state().is_completed());
    assert_eq!(inner.take_result(), Some(Ok(7)));
}

#[test]
fn the_mark_is_taken_off_after_the_poll() {
    let mut state = State::empty();
    let mut counter = Counter(1);
    let guard = RunningGuard::new(&mut state, &mut counter);
    let opened = &mut state;
    let mut told = None;
    let tell = &mut told;
    let poll = guard.poll(Waker::noop(), move |polled| {
        *tell = Some((polled, opened.is_running()));
        opened
    });
    assert_eq!(poll, Poll::Ready(()));
    assert_eq!(told, Some((Poll::Ready(()), true)));
    assert_eq!(state, State::empty());
}
