use crossfire::mpsc::{bounded_blocking, Array};
use crossfire::{MTx, Rx};
use vstd::prelude::*;

verus! {

/// The sending end of a bounded channel between threads: a `crossfire::MTx`.
#[verifier::external_body]
#[verifier::reject_recursive_types(T)]
pub struct RawTx<T: 'static> {
    tx: MTx<Array<T>>,
}

/// The receiving end of a bounded channel between threads: a `crossfire::Rx`.
#[verifier::external_body]
#[verifier::reject_recursive_types(T)]
pub struct RawRx<T: 'static> {
    rx: Rx<Array<T>>,
}

/// A sending end of a bounded channel between threads, with an account of what has been sent
/// through it.
#[verifier::reject_recursive_types(T)]
pub struct SyncTx<T: 'static> {
    tx: RawTx<T>,
    log: Ghost<Seq<(T, Result<(), T>)>>,
}

/// The receiving end of a bounded channel between threads, with an account of what the channel has
/// answered.
#[verifier::reject_recursive_types(T)]
pub struct SyncRx<T: 'static> {
    rx: RawRx<T>,
    log: Ghost<Seq<Option<T>>>,
}

/// Calls `crossfire::mpsc::bounded_blocking`: the two ends of a new channel. The call panics on a
/// size of `2^31` or more.
#[verifier::external_body]
fn raw_bounded<T>(size: usize) -> (ends: (RawTx<T>, RawRx<T>))
    requires
        size < 0x8000_0000,
{
    let (tx, rx) = bounded_blocking(size);
    (RawTx { tx }, RawRx { rx })
}

/// Whether `ends` are the two ends of one channel, which was made with room for `size` messages.
pub closed spec fn is_channel<T>(size: usize, ends: (RawTx<T>, RawRx<T>)) -> bool {
    call_ensures(raw_bounded::<T>, (size,), ends)
}

/// The two ends of a new channel with room for `size` messages.
pub(crate) fn bounded<T>(size: usize) -> (ends: (RawTx<T>, SyncRx<T>))
    requires
        size < 0x8000_0000,
    ensures
        is_channel(size, (ends.0, ends.1.end())),
        ends.1.received() == Seq::<Option<T>>::empty(),
{
    let (tx, rx) = raw_bounded(size);
    (tx, SyncRx { rx, log: Ghost(Seq::empty()) })
}

impl<T> RawTx<T> {
    /// Calls `Tx::send`, which waits while the channel is full. What is claimed of it: a message
    /// that is not sent comes back as it was handed in. Whether the receiving end is still there
    /// is up to the thread that holds it, so nothing says when the call fails.
    #[verifier::external_body]
    fn raw_send(&self, item: T) -> (sent: Result<(), T>)
        ensures
            sent matches Err(back) ==> back == item,
    {
        match self.tx.send(item) {
            Ok(()) => Ok(()),
            Err(err) => Err(err.0),
        }
    }

    /// Whether `sent` is what sending `item` into the channel may come to: sent, or refused and
    /// given back.
    pub closed spec fn sends(self, item: T, sent: Result<(), T>) -> bool {
        call_ensures(RawTx::<T>::raw_send, (&self, item), sent)
    }

    /// Sends a message into the channel, and waits while it is full.
    pub(crate) fn send(&self, item: T) -> (sent: Result<(), T>)
        ensures
            self.sends(item, sent),
            sent matches Err(back) ==> back == item,
    {
        self.raw_send(item)
    }

    /// Calls `ChannelShared::is_empty`: whether no message waits at the moment. The answer is up
    /// to the other threads, so nothing is claimed of it.
    #[verifier::external_body]
    fn raw_is_empty(&self) -> bool {
        self.tx.is_empty()
    }

    /// Whether the channel may answer `empty` when it is asked whether no message waits.
    pub closed spec fn answers_empty(self, empty: bool) -> bool {
        call_ensures(RawTx::<T>::raw_is_empty, (&self,), empty)
    }

    /// Asks the channel whether no message waits.
    pub(crate) fn is_empty(&self) -> (empty: bool)
        ensures
            self.answers_empty(empty),
    {
        self.raw_is_empty()
    }
}

impl<T> Clone for RawTx<T> {
    /// Calls `MTx::clone`: another sending end of the same channel. It is made of the same
    /// reference to the channel and of nothing else, which is what the equality claims.
    #[verifier::external_body]
    fn clone(&self) -> (tx: Self)
        ensures
            tx == *self,
    {
        RawTx { tx: self.tx.clone() }
    }
}

impl<T> SyncTx<T> {
    /// The sending end itself.
    pub closed spec fn end(self) -> RawTx<T> {
        self.tx
    }

    /// What has been sent through this end so far, each message with what that came to.
    pub closed spec fn sent(self) -> Seq<(T, Result<(), T>)> {
        self.log@
    }

    /// A sending end through which nothing has been sent.
    pub(crate) fn new(tx: RawTx<T>) -> (end: Self)
        ensures
            end.end() == tx,
            end.sent() == Seq::<(T, Result<(), T>)>::empty(),
    {
        SyncTx { tx, log: Ghost(Seq::empty()) }
    }

    /// Another sending end of the same channel, through which nothing has been sent.
    pub(crate) fn another(&self) -> (end: Self)
        ensures
            end.end() == self.end(),
            end.sent() == Seq::<(T, Result<(), T>)>::empty(),
    {
        SyncTx { tx: self.tx.clone(), log: Ghost(Seq::empty()) }
    }

    /// Sends a message into the channel, and waits while it is full.
    pub(crate) fn send(&mut self, item: T) -> (sent: Result<(), T>)
        ensures
            final(self).end().sends(item, sent),
            sent matches Err(back) ==> back == item,
            final(self).end() == old(self).end(),
            final(self).sent() == old(self).sent().push((item, sent)),
    {
        let ghost message = item;
        let sent = self.tx.send(item);
        self.log = Ghost(self.log@.push((message, sent)));
        sent
    }
}

impl<T> RawRx<T> {
    /// Calls `Rx::try_recv`: a message, if one waits at the moment. Which one that is is up to
    /// the threads that send, so nothing is claimed of it.
    #[verifier::external_body]
    fn try_recv(&self) -> Option<T> {
        self.rx.try_recv().ok()
    }

    /// Whether the channel may answer `item` when it is asked for a message.
    pub closed spec fn answers(self, item: Option<T>) -> bool {
        call_ensures(RawRx::<T>::try_recv, (&self,), item)
    }
}

impl<T> SyncRx<T> {
    /// The receiving end itself.
    pub closed spec fn end(self) -> RawRx<T> {
        self.rx
    }

    /// What the channel has answered so far, each time that it was asked for a message.
    pub closed spec fn received(self) -> Seq<Option<T>> {
        self.log@
    }

    /// Asks the channel for a message, without waiting for one.
    pub(crate) fn try_recv(&mut self) -> (item: Option<T>)
        ensures
            final(self).end().answers(item),
            final(self).end() == old(self).end(),
            final(self).received() == old(self).received().push(item),
    {
        let item = self.rx.try_recv();
        self.log = Ghost(self.log@.push(item));
        item
    }
}

/// What a channel is said to do is what calls into it come to, and nothing else is: its two ends
/// come of one call that makes a channel, a message is sent by a call that sends it, and an answer
/// is that of a call that asks for it.
proof fn law_what_is_said_of_a_channel_was_called<T>(
    size: usize,
    tx: RawTx<T>,
    rx: RawRx<T>,
    item: T,
    sent: Result<(), T>,
    empty: bool,
    answer: Option<T>,
)
    ensures
        is_channel(size, (tx, rx)) <==> call_ensures(raw_bounded::<T>, (size,), (tx, rx)),
        tx.sends(item, sent) <==> call_ensures(RawTx::<T>::raw_send, (&tx, item), sent),
        tx.answers_empty(empty) <==> call_ensures(RawTx::<T>::raw_is_empty, (&tx,), empty),
        rx.answers(answer) <==> call_ensures(RawRx::<T>::try_recv, (&rx,), answer),
{
}

} // verus!
