use std::task::Poll;
use vstd::prelude::*;

use crate::oneshot::Oneshot;
use crate::queue::{Handle, Shared};
use crate::slots::TaskId;
use crate::task::{may_poll, PollOutcome};

verus! {

/// Why there is no output of a task. `P` is what a panic leaves behind.
#[derive(Debug, PartialEq, Eq)]
pub enum JoinError<P> {
    /// The task was given up.
    Canceled,
    /// The task has panicked.
    Panicked(P),
}

/// What came of a task.
#[derive(Debug, PartialEq, Eq)]
pub struct JoinResult<T, P>(pub Result<T, JoinError<P>>);

/// A result in which a panic may have been caught.
pub trait ResumeUnwind: Sized {
    /// What is left once it is clear that there was no panic.
    type Output;

    /// Whether a panic was caught, so that it has to be resumed.
    spec fn panicked(self) -> bool;

    /// What is left once it is clear that there was no panic.
    spec fn resumed(self) -> Self::Output;

    /// Goes on with what is left. A panic that was caught is for the caller to resume.
    fn resume_unwind(self) -> (output: Self::Output)
        requires
            !self.panicked(),
        ensures
            output == self.resumed(),
    ;
}

impl<T, P> ResumeUnwind for Result<T, JoinError<P>> {
    type Output = Option<T>;

    open spec fn panicked(self) -> bool {
        self matches Err(JoinError::Panicked(_))
    }

    open spec fn resumed(self) -> Option<T> {
        match self {
            Ok(output) => Some(output),
            Err(_) => None,
        }
    }

    fn resume_unwind(self) -> (output: Option<T>) {
        match self {
            Ok(output) => Some(output),
            Err(_) => None,
        }
    }
}

/// What came of a task, as far as is known from what was received from it.
pub open spec fn joined<T, P>(received: Poll<Option<Result<T, P>>>) -> Poll<JoinResult<T, P>> {
    match received {
        Poll::Pending => Poll::Pending,
        Poll::Ready(Some(Ok(output))) => Poll::Ready(JoinResult(Ok(output))),
        Poll::Ready(Some(Err(panic))) => Poll::Ready(JoinResult(Err(JoinError::Panicked(panic)))),
        Poll::Ready(None) => Poll::Ready(JoinResult(Err(JoinError::Canceled))),
    }
}

/// The handle of one who waits for a task.
#[derive(Debug)]
pub struct JoinHandle {
    handle: Handle,
}

impl JoinHandle {
    /// The task that is waited for.
    pub closed spec fn id(self) -> TaskId {
        self.handle.id()
    }

    /// A handle to wait for the task that `handle` names.
    pub fn new(handle: Handle) -> (join: Self)
        ensures
            join.id() == handle.id(),
    {
        JoinHandle { handle }
    }

    /// Asks for the task to be given up, and wakes it so that it gets to know. This is also what
    /// dropping the handle comes to.
    pub fn cancel<T>(&self, rx: &mut Oneshot<T>, shared: Shared<'_>)
        requires
            shared matches Shared::Local(queue) ==> (*queue)@.wakeable(),
        ensures
            *final(rx) == (Oneshot { canceled: true, ..*old(rx) }),
            shared matches Shared::Local(queue) ==> {
                &&& final(queue)@.wakeable()
                &&& exists|ids: Seq<TaskId>|
                    #[trigger] (*queue).scheduled(ids, self.id(), *final(queue))
                &&& (*queue)@.items.contains_key(self.id())
                    ==> final(queue)@.items[self.id()].is_hot
            },
            shared matches Shared::Remote { remote, alive: true } ==> exists|
                sent: Result<(), TaskId>,
            |
                #[trigger] (*remote).scheduled(self.id(), sent, *final(remote)),
            shared matches Shared::Remote { remote, alive: false } ==> *final(remote) == *remote,
    {
        assert(self.id() == self.handle.id());
        rx.set_canceled();
        self.handle.schedule(shared);
    }

    /// Whether the task is to be given up.
    pub fn is_canceled<T>(&self, rx: &Oneshot<T>) -> (canceled: bool)
        ensures
            canceled == rx.canceled,
    {
        rx.is_canceled()
    }

    /// Gives up waiting and lets the task go on: unlike dropping the handle, this does not cancel
    /// it. What is left is the name of the task.
    pub fn detach(self) -> (handle: Handle)
        ensures
            handle.id() == self.id(),
    {
        self.handle
    }

    /// Takes what came of the task, if it is known. If it is not, the task is woken; where that
    /// fails, the task counts as canceled.
    pub fn poll<T, P>(
        &self,
        rx: &mut Oneshot<Result<T, P>>,
        shared: Shared<'_>,
    ) -> (poll: Poll<JoinResult<T, P>>)
        requires
            old(rx).received() is Pending ==> (shared matches Shared::Local(queue) ==> (
            *queue)@.wakeable()),
        ensures
            *final(rx) == (Oneshot { value: None, ..*old(rx) }),
            old(rx).value matches Some(Ok(output)) ==> poll == Poll::Ready(
                JoinResult::<T, P>(Ok(output)),
            ),
            old(rx).value matches Some(Err(panic)) ==> poll == Poll::Ready(
                JoinResult::<T, P>(Err(JoinError::Panicked(panic))),
            ),
            old(rx).value is None && old(rx).closed ==> poll == Poll::Ready(
                JoinResult::<T, P>(Err(JoinError::Canceled)),
            ),
            joined(old(rx).received()) is Ready ==> {
                &&& poll == joined(old(rx).received())
                &&& shared matches Shared::Local(queue) ==> *final(queue) == *queue
                &&& shared matches Shared::Remote { remote, .. } ==> *final(remote) == *remote
            },
            joined(old(rx).received()) is Pending ==> {
                &&& poll is Pending || poll == Poll::Ready(
                    JoinResult::<T, P>(Err(JoinError::Canceled)),
                )
                &&& shared is Dropped ==> poll is Ready
                &&& shared matches Shared::Local(queue) ==> {
                    &&& poll is Pending <==> (*queue)@.items.contains_key(self.id())
                    &&& final(queue)@.wakeable()
                    &&& exists|ids: Seq<TaskId>|
                        #[trigger] (*queue).scheduled(ids, self.id(), *final(queue))
                    &&& poll is Pending ==> final(queue)@.items[self.id()].is_hot
                }
                &&& shared matches Shared::Remote { remote, alive: true } ==> exists|
                    sent: Result<(), TaskId>,
                |
                    {
                        &&& #[trigger] (*remote).scheduled(self.id(), sent, *final(remote))
                        &&& poll is Pending <==> sent is Ok
                    }
                &&& shared matches Shared::Remote { remote, alive: false } ==> poll is Ready
                    && *final(remote) == *remote
            },
    {
        assert(self.id() == self.handle.id());
        match rx.poll() {
            Poll::Pending => if self.handle.schedule(shared) {
                Poll::Pending
            } else {
                Poll::Ready(JoinResult(Err(JoinError::Canceled)))
            },
            Poll::Ready(Some(Ok(output))) => Poll::Ready(JoinResult(Ok(output))),
            Poll::Ready(Some(Err(panic))) => Poll::Ready(
                JoinResult(Err(JoinError::Panicked(panic))),
            ),
            Poll::Ready(None) => Poll::Ready(JoinResult(Err(JoinError::Canceled))),
        }
    }
}

/// What the channel holds after one poll of the task with the given outcome, as
/// [`crate::task::settle`] leaves it.
pub open spec fn settled<T, P>(
    tx: Oneshot<Result<T, P>>,
    outcome: PollOutcome<T, P>,
) -> Oneshot<Result<T, P>> {
    match outcome {
        PollOutcome::Pending => tx,
        PollOutcome::Ready(output) => Oneshot { value: Some(Ok(output)), ..tx },
        PollOutcome::Panicked(panic) => Oneshot { value: Some(Err(panic)), ..tx },
    }
}

/// Who waits for a task gets its output, or what its panic left behind, whether the task is
/// already gone or not, and whether it was asked to be given up or not.
pub proof fn law_result_is_handed_over<T, P>(
    tx: Oneshot<Result<T, P>>,
    outcome: PollOutcome<T, P>,
)
    ensures
        outcome matches PollOutcome::Ready(output) ==> joined(settled(tx, outcome).received())
            == Poll::Ready(JoinResult::<T, P>(Ok(output))),
        outcome matches PollOutcome::Panicked(panic) ==> joined(settled(tx, outcome).received())
            == Poll::Ready(JoinResult::<T, P>(Err(JoinError::Panicked(panic)))),
{
}

/// A task that is asked to be given up before it has left a result is not polled any more, and
/// once it is gone, who waits for it gets to know that it was canceled. Asking again makes no
/// difference.
pub proof fn law_cancel<T, P>(rx: Oneshot<Result<T, P>>)
    requires
        rx.value is None,
    ensures
        ({
            let canceled = Oneshot { canceled: true, ..rx };
            let gone = Oneshot { closed: true, ..canceled };
            &&& !may_poll(canceled)
            &&& Oneshot { canceled: true, ..canceled } == canceled
            &&& joined(gone.received()) == Poll::Ready(
                JoinResult::<T, P>(Err(JoinError::Canceled)),
            )
        }),
{
}

/// What was received from a task becomes what came of it, one for one: an output, what a panic left
/// behind, the news that the task is gone without either, or nothing yet.
pub proof fn law_what_was_received_came_of_the_task<T, P>(
    received: Poll<Option<Result<T, P>>>,
    output: T,
    panic: P,
)
    ensures
        received is Pending <==> joined(received) is Pending,
        received == Poll::Ready(Some(Ok::<T, P>(output))) ==> joined(received) == Poll::Ready(
            JoinResult::<T, P>(Ok(output)),
        ),
        received == Poll::Ready(Some(Err::<T, P>(panic))) ==> joined(received) == Poll::Ready(
            JoinResult::<T, P>(Err(JoinError::Panicked(panic))),
        ),
        received == Poll::Ready(None::<Result<T, P>>) ==> joined(received) == Poll::Ready(
            JoinResult::<T, P>(Err(JoinError::Canceled)),
        ),
{
}

/// Going on with a result gives its output, or nothing if the task was canceled; only a panic has to
/// be resumed.
pub proof fn law_resuming_gives_the_output<T, P>(result: Result<T, JoinError<P>>)
    ensures
        result.panicked() <==> (result matches Err(JoinError::Panicked(_))),
        result matches Ok(output) ==> result.resumed() == Some(output),
        result matches Err(JoinError::Canceled) ==> result.resumed() is None,
{
}

} // verus!
