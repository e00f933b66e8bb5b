use std::task::Poll;
use vstd::prelude::*;

verus! {

/// What a task and the one who waits for it share: the task leaves one value in it, the other
/// takes it, or asks for the task to be given up.
#[derive(Debug)]
pub struct Oneshot<T> {
    /// The value, from when it is sent to when it is received.
    pub value: Option<T>,
    /// Whether the sender is gone.
    pub closed: bool,
    /// Whether the receiver has asked for the task to be given up.
    pub canceled: bool,
}

/// A channel for one value, with nothing in it.
pub fn oneshot<T>() -> (channel: Oneshot<T>)
    ensures
        channel == (Oneshot { value: None::<T>, closed: false, canceled: false }),
{
    Oneshot { value: None, closed: false, canceled: false }
}

impl<T> Oneshot<T> {
    /// What there is to receive: a value, or the news that none will come, or nothing yet.
    pub open spec fn received(self) -> Poll<Option<T>> {
        if self.value is Some {
            Poll::Ready(self.value)
        } else if self.closed {
            Poll::Ready(None)
        } else {
            Poll::Pending
        }
    }

    /// Leaves the value.
    pub fn send(&mut self, value: T)
        ensures
            *final(self) == (Oneshot { value: Some(value), ..*old(self) }),
    {
        self.value = Some(value);
    }

    /// Takes note that the sender is gone.
    pub fn close(&mut self)
        ensures
            *final(self) == (Oneshot { closed: true, ..*old(self) }),
    {
        self.closed = true;
    }

    /// Asks for the task to be given up.
    pub fn set_canceled(&mut self)
        ensures
            *final(self) == (Oneshot { canceled: true, ..*old(self) }),
    {
        self.canceled = true;
    }

    /// Whether the task is to be given up.
    pub fn is_canceled(&self) -> (canceled: bool)
        ensures
            canceled == self.canceled,
    {
        self.canceled
    }

    /// Whether there is nothing to receive yet.
    pub fn is_pending(&self) -> (pending: bool)
        ensures
            pending == (self.received() is Pending),
            pending == (self.value is None && !self.closed),
    {
        self.value.is_none() && !self.closed
    }

    /// Receives what there is to receive.
    pub fn poll(&mut self) -> (poll: Poll<Option<T>>)
        ensures
            poll == old(self).received(),
            old(self).value is Some ==> poll == Poll::Ready(old(self).value),
            old(self).value is None && old(self).closed ==> poll == Poll::Ready(None::<T>),
            old(self).value is None && !old(self).closed ==> poll is Pending,
            *final(self) == (Oneshot { value: None, ..*old(self) }),
    {
        match self.value.take() {
            Some(value) => Poll::Ready(Some(value)),
            None => if self.closed {
                Poll::Ready(None)
            } else {
                Poll::Pending
            },
        }
    }
}

/// What there is to receive is the value, as long as it is there, whether the sender is gone or not
/// and whether the task was asked to be given up or not; without a value it is the news that the
/// sender is gone, or nothing yet.
pub proof fn law_a_value_that_was_sent_is_received<T>(channel: Oneshot<T>, value: T)
    ensures
        (Oneshot { value: Some(value), ..channel }).received() == Poll::Ready(Some(value)),
        channel.value is None && channel.closed ==> channel.received() == Poll::Ready(None::<T>),
        channel.value is None && !channel.closed ==> channel.received() is Pending,
{
}

} // verus!
