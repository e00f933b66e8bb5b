use std::task::Poll;
use vstd::prelude::*;

use crate::oneshot::Oneshot;

verus! {

/// The result of one poll, as `std` declares it.
#[verifier::external_type_specification]
pub struct ExPoll<T>(Poll<T>);

/// What one poll of a future came to. `P` is what a panic leaves behind.
#[derive(Debug, PartialEq, Eq)]
pub enum PollOutcome<T, P> {
    /// The future is to be polled again.
    Pending,
    /// The future has finished.
    Ready(T),
    /// The future has panicked.
    Panicked(P),
}

/// A future whose type has been erased, together with everything it takes to poll it.
pub trait Pollable {
    /// Polls the future once: `Poll::Pending` if it is to be polled again,
    /// `Poll::Ready` if it is done with.
    fn poll(&mut self) -> Poll<()>;
}

/// One spawned task.
pub struct Task {
    /// What there is to poll: nothing while it is out being polled.
    pub poll: Option<Box<dyn Pollable>>,
}

impl Task {
    /// The task that holds `poll`.
    pub open spec fn holding(poll: Option<Box<dyn Pollable>>) -> Task {
        Task { poll }
    }

    /// A task that holds `inner`.
    pub fn new(inner: Box<dyn Pollable>) -> (task: Self)
        ensures
            task.poll == Some(inner),
    {
        let poll = Some(inner);
        Task { poll }
    }

    /// Takes out what the task holds, for it to be polled.
    pub fn take(&mut self) -> (inner: Option<Box<dyn Pollable>>)
        ensures
            inner == old(self).poll,
            final(self).poll is None,
    {
        self.poll.take()
    }

    /// Puts back what was taken out.
    pub fn reset(&mut self, inner: Box<dyn Pollable>)
        ensures
            final(self).poll == Some(inner),
    {
        let poll = Some(inner);
        self.poll = poll;
    }
}

/// What is put back into a task is what is taken out of it next, whatever it held before; and
/// putting back what was taken out restores the task. Here `reset` is the task `before` after
/// [`Task::reset`] with `inner`, and `emptied` is the task `reset` after [`Task::take`], which
/// returned `taken`.
pub proof fn law_what_is_put_back_is_taken_next(
    before: Task,
    inner: Box<dyn Pollable>,
    reset: Task,
    taken: Option<Box<dyn Pollable>>,
    emptied: Task,
)
    requires
        reset.poll == Some(inner),
        taken == reset.poll,
        emptied.poll is None,
    ensures
        taken == Some(inner),
        before.poll == Some(inner) ==> reset == before,
        emptied == Task::holding(None),
        Task::holding(taken).poll == taken,
{
}

/// A future, and the waker that it is polled with.
pub struct Concrete<F, W> {
    /// The future.
    pub future: F,
    /// The waker.
    pub waker: W,
}

impl<F, W> Concrete<F, W> {
    /// A future to be polled with `waker`.
    pub fn new(future: F, waker: W) -> (concrete: Self)
        ensures
            concrete == (Concrete { future, waker }),
    {
        Concrete { future, waker }
    }
}

/// Whether a task is to be polled at all: not once it has been canceled.
pub open spec fn may_poll<T>(tx: Oneshot<T>) -> bool {
    !tx.canceled
}

/// Whether a task is to be polled at all: not once it has been canceled.
pub fn should_poll<T>(tx: &Oneshot<T>) -> (yes: bool)
    ensures
        yes == may_poll(*tx),
        yes == !tx.canceled,
{
    !tx.is_canceled()
}

/// Takes down the outcome of one poll: a result, be it an output or a panic, is sent to the one
/// who waits for it, and the task is done with.
pub fn settle<T, P>(tx: &mut Oneshot<Result<T, P>>, outcome: PollOutcome<T, P>) -> (poll: Poll<()>)
    ensures
        match outcome {
            PollOutcome::Pending => poll is Pending && *final(tx) == *old(tx),
            PollOutcome::Ready(output) => poll == Poll::Ready(()) && *final(tx) == (Oneshot {
                value: Some(Ok(output)),
                ..*old(tx)
            }),
            PollOutcome::Panicked(panic) => poll == Poll::Ready(()) && *final(tx) == (Oneshot {
                value: Some(Err(panic)),
                ..*old(tx)
            }),
        },
{
    match outcome {
        PollOutcome::Pending => {
            return Poll::Pending;
        },
        PollOutcome::Ready(output) => {
            tx.send(Ok(output));
        },
        PollOutcome::Panicked(panic) => {
            tx.send(Err(panic));
        },
    }
    Poll::Ready(())
}

} // verus!
