use std::task::{Poll, Waker};
use vstd::prelude::*;

use crate::inner::Pollable;
use crate::state::State;

verus! {

/// A guard that holds a unique reference to the future of a task while the task is marked as
/// running.
pub struct RunningGuard<'a, P: Pollable> {
    pollable: &'a mut P,
}

impl<'a, P: Pollable> RunningGuard<'a, P> {
    /// The future that the guard holds.
    pub closed spec fn pollable(self) -> &'a mut P {
        self.pollable
    }

    /// Marks the task as running. It must not be running already.
    pub fn new(state: &mut State, pollable: &'a mut P) -> (guard: Self)
        requires
            !old(state).has(State::RUNNING),
        ensures
            final(state).bits() == old(state).bits() | State::RUNNING,
            *guard.pollable() == *old(pollable),
            *final(guard.pollable()) == *final(pollable),
    {
        state.insert(State::RUNNING);
        RunningGuard { pollable }
    }

    /// Polls the future once, and returns what it returned.
    ///
    /// This will ensure the `RUNNING` bit be unset after running: `open` is told what the poll came
    /// to, and gets at the state of the task again, which is not held while the future is polled.
    pub fn poll<'s, O: FnOnce(Poll<()>) -> &'s mut State>(self, waker: &Waker, open: O) -> (poll:
        Poll<()>)
        requires
            forall|polled: Poll<()>| call_requires(open, (polled,)),
        ensures
            exists|pollable: &mut P|
                *pollable == *self.pollable() && *final(pollable) == *final(self.pollable())
                    && #[trigger] call_ensures(P::poll, (pollable, waker), poll),
            exists|state: &mut State|
                final(state).bits() == (*state).bits() & !State::RUNNING
                    && #[trigger] call_ensures(open, (poll,), state),
    {
        let poll = self.pollable.poll(waker);
        let state = open(poll);
        assert(call_ensures(open, (poll,), state));
        Self::release(state);
        poll
    }

    /// Unsets the `RUNNING` bit. Whoever drops a guard that has not come to the end of a poll, be it
    /// that the poll has panicked, has to call this: nothing is done when a guard is dropped.
    pub fn release(state: &mut State)
        ensures
            final(state).bits() == old(state).bits() & !State::RUNNING,
    {
        state.remove(State::RUNNING);
    }
}

/// Whatever happens to the other flags while a task runs, once it has run it is not marked as
/// running, and the other flags are kept.
pub proof fn law_not_running_after_release(before: State, after: State, other: u8)
    requires
        after.bits() == before.bits() & !State::RUNNING,
        crate::state::is_flag(other),
    ensures
        !after.has(State::RUNNING),
        other != State::RUNNING ==> after.has(other) == before.has(other),
{
    crate::state::law_remove(before, after, State::RUNNING, other);
}

} // verus!
