use std::future::Future;
use std::task::{Poll, Waker};
use vstd::prelude::*;

use crate::run_queue::EnQueue;
use crate::state::State;
use crate::task::PollOutcome;

verus! {

/// The waker of `std`.
#[verifier::external_type_specification]
#[verifier::external_body]
pub struct ExWaker(Waker);

/// Used to pass a future around without needing to expose its type.
pub trait Pollable {
    /// Polls the future once.
    fn poll(&mut self, waker: &Waker) -> Poll<()>;
}

/// A future, or what came of it. `P` is what a panic leaves behind.
pub enum FutureState<F: Future, P> {
    /// The future is yet to finish.
    Running(F),
    /// The future has finished or been dropped. The result stays until it is taken.
    Completed(Option<Result<F::Output, P>>),
}

impl<F: Future, P> FutureState<F, P> {
    /// The future, if it is yet to finish.
    pub fn running(&mut self) -> (future: Option<&mut F>)
        ensures
            match *old(self) {
                FutureState::Running(f) => {
                    &&& future matches Some(r) ==> *r == f && *final(self)
                        == FutureState::<F, P>::Running(*final(r))
                    &&& future is Some
                },
                FutureState::Completed(_) => future is None && *final(self) == *old(self),
            },
    {
        match self {
            FutureState::Running(future) => Some(future),
            FutureState::Completed(_) => None,
        }
    }

    /// What the state is after one poll of the future with the given outcome.
    pub open spec fn settled(self, outcome: PollOutcome<F::Output, P>) -> Self {
        match (self, outcome) {
            (FutureState::Running(_), PollOutcome::Ready(output)) => FutureState::Completed(
                Some(Ok(output)),
            ),
            (FutureState::Running(_), PollOutcome::Panicked(panic)) => FutureState::Completed(
                Some(Err(panic)),
            ),
            _ => self,
        }
    }

    /// Takes down the outcome of one poll of the future. A future that has panicked is done with.
    pub fn settle(&mut self, outcome: PollOutcome<F::Output, P>) -> (poll: Poll<()>)
        ensures
            *final(self) == old(self).settled(outcome),
            *old(self) is Completed || outcome is Pending ==> *final(self) == *old(self),
            *old(self) is Running ==> match outcome {
                PollOutcome::Pending => poll is Pending,
                PollOutcome::Ready(output) => *final(self) == FutureState::<F, P>::Completed(
                    Some(Ok(output)),
                ),
                PollOutcome::Panicked(panic) => *final(self) == FutureState::<F, P>::Completed(
                    Some(Err(panic)),
                ),
            },
            poll == (if *final(self) is Running {
                Poll::Pending
            } else {
                Poll::Ready(())
            }),
    {
        if let FutureState::Completed(_) = self {
            return Poll::Ready(());
        }
        match outcome {
            PollOutcome::Pending => {
                return Poll::Pending;
            },
            PollOutcome::Ready(output) => {
                *self = FutureState::Completed(Some(Ok(output)));
            },
            PollOutcome::Panicked(panic) => {
                *self = FutureState::Completed(Some(Err(panic)));
            },
        }
        Poll::Ready(())
    }
}

/// All there is to a task.
#[verifier::reject_recursive_types(R)]
pub struct Inner<F: Future, R: 'static, P, E> {
    /// The state of the task.
    pub state: State,
    /// The queue that the task is run from.
    pub queue: EnQueue<R>,
    /// Something extra that is attached to the task.
    pub extra: Option<E>,
    /// Who is to be told when the task has finished.
    pub waker: Option<Waker>,
    /// What the task runs.
    pub future: FutureState<F, P>,
}

impl<F: Future, R, P> Inner<F, R, P, ()> {
    /// A task that is yet to run `future`.
    pub fn new(queue: EnQueue<R>, future: F) -> (inner: Self)
        ensures
            inner.state.bits() == 0,
            inner.queue == queue,
            inner.extra is None,
            inner.waker is None,
            inner.future == FutureState::<F, P>::Running(future),
    {
        Inner {
            state: State::empty(),
            queue,
            extra: None,
            waker: None,
            future: FutureState::Running(future),
        }
    }
}

impl<F: Future, R, P, E> Inner<F, R, P, E> {
    /// The task with something extra attached to it, in place of what was.
    pub fn with_extra(self, extra: E) -> (inner: Self)
        ensures
            inner == (Inner { extra: Some(extra), ..self }),
    {
        let Inner { state, queue, extra: _, waker, future } = self;
        Inner { state, queue, extra: Some(extra), waker, future }
    }

    /// The state of the task.
    pub fn state(&mut self) -> (state: &mut State)
        ensures
            *state == old(self).state,
            *final(self) == (Inner { state: *final(state), ..*old(self) }),
    {
        &mut self.state
    }

    /// The future of the task.
    pub fn poll(&mut self) -> (future: &mut FutureState<F, P>)
        ensures
            *future == old(self).future,
            *final(self) == (Inner { future: *final(future), ..*old(self) }),
    {
        &mut self.future
    }

    /// The state and the future of the task, for it to be run.
    pub fn state_and_future(&mut self) -> (parts: (&mut State, &mut FutureState<F, P>))
        ensures
            *parts.0 == old(self).state,
            *parts.1 == old(self).future,
            *final(self) == (Inner {
                state: *final(parts.0),
                future: *final(parts.1),
                ..*old(self)
            }),
    {
        (&mut self.state, &mut self.future)
    }

    /// Who is to be told when the task has finished.
    pub fn waker(&mut self) -> (waker: &mut Option<Waker>)
        ensures
            *waker == old(self).waker,
            *final(self) == (Inner { waker: *final(waker), ..*old(self) }),
    {
        &mut self.waker
    }

    /// The queue that the task is run from.
    pub fn queue(&self) -> (queue: &EnQueue<R>)
        ensures
            *queue == self.queue,
    {
        &self.queue
    }

    /// Something extra that is attached to the task.
    pub fn extra(&mut self) -> (extra: Option<&mut E>)
        ensures
            extra is Some <==> old(self).extra is Some,
            extra matches Some(extra) ==> {
                &&& old(self).extra == Some(*extra)
                &&& *final(self) == (Inner { extra: Some(*final(extra)), ..*old(self) })
            },
            extra is None ==> *final(self) == *old(self),
    {
        match &mut self.extra {
            Some(extra) => Some(extra),
            None => None,
        }
    }

    /// Drops the future, and its result where there is one.
    pub fn drop_future(&mut self)
        ensures
            *final(self) == (Inner { future: FutureState::Completed(None), ..*old(self) }),
    {
        self.future = FutureState::Completed(None);
    }

    /// Takes the result, if the future has finished and it has not been taken before.
    pub fn take_result(&mut self) -> (result: Option<Result<F::Output, P>>)
        ensures
            result == (match old(self).future {
                FutureState::Completed(result) => result,
                FutureState::Running(_) => None,
            }),
            *final(self) == (match old(self).future {
                FutureState::Completed(_) => Inner {
                    future: FutureState::Completed(None),
                    ..*old(self)
                },
                FutureState::Running(_) => *old(self),
            }),
    {
        match &mut self.future {
            FutureState::Completed(result) => result.take(),
            FutureState::Running(_) => None,
        }
    }
}

/// One poll of a future that is yet to finish leaves its output, or what its panic left behind, as
/// the result, or the future as it was if it is pending.
pub proof fn law_an_outcome_becomes_the_result<F: Future, P>(
    state: FutureState<F, P>,
    outcome: PollOutcome<F::Output, P>,
)
    ensures
        state is Running ==> match outcome {
            PollOutcome::Pending => state.settled(outcome) == state,
            PollOutcome::Ready(output) => state.settled(outcome) == FutureState::<
                F,
                P,
            >::Completed(Some(Ok(output))),
            PollOutcome::Panicked(panic) => state.settled(outcome) == FutureState::<
                F,
                P,
            >::Completed(Some(Err(panic))),
        },
        state is Completed ==> state.settled(outcome) == state,
{
}

/// A future that has finished stays so, whatever further polls are said to have come to.
pub proof fn law_completed_is_final<F: Future, P>(
    state: FutureState<F, P>,
    first: PollOutcome<F::Output, P>,
    second: PollOutcome<F::Output, P>,
)
    requires
        state.settled(first) is Completed,
    ensures
        state.settled(first).settled(second) == state.settled(first),
{
}

} // verus!
