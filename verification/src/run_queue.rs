use vstd::prelude::*;

use crate::channel::{bounded, is_channel, RawRx, SyncRx, RawTx};
use crate::local::LocalQueue;

verus! {

/// The end of a run queue that runnables are put into, from any thread.
#[verifier::reject_recursive_types(T)]
pub struct EnQueue<T: 'static> {
    sync: RawTx<T>,
}

/// The end of a run queue that runnables are taken out of, by the thread that runs them.
#[verifier::reject_recursive_types(T)]
pub struct DeQueue<T: 'static> {
    sync: SyncRx<T>,
    local: LocalQueue<T>,
}

/// How many runnables of other threads may wait.
pub const SYNC_SIZE: usize = 64;

/// How many runnables of the running thread may wait before its queue has to grow.
pub const LOCAL_SIZE: usize = 64;

/// Creates an empty run queue: the two ends belong to one channel.
pub fn make_queue<T>() -> (ends: (EnQueue<T>, DeQueue<T>))
    ensures
        is_channel(SYNC_SIZE, (ends.0.channel(), ends.1.end())),
        ends.1.received() == Seq::<Option<T>>::empty(),
        ends.1@ == Seq::<T>::empty(),
{
    let (tx, rx) = bounded(SYNC_SIZE);
    let enq = EnQueue { sync: tx };
    let deq = DeQueue { sync: rx, local: LocalQueue::with_capacity(LOCAL_SIZE) };
    (enq, deq)
}

impl<T> EnQueue<T> {
    /// The sending end of the channel for other threads.
    pub closed spec fn channel(self) -> RawTx<T> {
        self.sync
    }

    /// Try to enqueue, return `Err(runnable)` if we're on a different queue. `local` is the queue
    /// of the running thread, for a caller on that thread: it has no fixed size, and takes every
    /// runnable. Any other caller gets the runnable back, and may wait with [`EnQueue::push`].
    pub fn try_push(&self, local: Option<&mut LocalQueue<T>>, runnable: T) -> (pushed: Result<
        (),
        T,
    >)
        ensures
            local matches Some(queue) ==> pushed is Ok && final(queue)@ == (*queue)@.push(runnable),
            local is None ==> pushed == Err::<(), T>(runnable),
    {
        match local {
            Some(local) => {
                local.push(runnable);
                Ok(())
            },
            None => Err(runnable),
        }
    }

    /// Enqueue, at the cost of potentially blocking the current thread: a caller that is not on
    /// the running thread waits for room in the channel. It gets the runnable back if the running
    /// thread has dropped its end.
    pub fn push(&self, local: Option<&mut LocalQueue<T>>, runnable: T) -> (pushed: Result<(), T>)
        ensures
            local matches Some(queue) ==> pushed is Ok && final(queue)@ == (*queue)@.push(runnable),
            local is None ==> self.channel().sends(runnable, pushed),
            pushed matches Err(back) ==> back == runnable,
    {
        match local {
            Some(local) => {
                local.push(runnable);
                Ok(())
            },
            None => self.sync.send(runnable),
        }
    }

    /// A hint for a runnable to decide whether to eagerly reschedule a pending task: whether
    /// nothing waits in the queue that the caller would push to.
    pub fn is_empty(&self, local: Option<&LocalQueue<T>>) -> (empty: bool)
        ensures
            local matches Some(queue) ==> empty == (queue@.len() == 0),
            local is None ==> self.channel().answers_empty(empty),
    {
        match local {
            Some(local) => local.is_empty(),
            None => self.sync.is_empty(),
        }
    }
}

impl<T> Clone for EnQueue<T> {
    /// Another end to put runnables into the same queue.
    fn clone(&self) -> (end: Self)
        ensures
            end == *self,
    {
        EnQueue { sync: self.sync.clone() }
    }
}

impl<T> View for DeQueue<T> {
    type V = Seq<T>;

    /// The runnables of the running thread, from the one to run first.
    closed spec fn view(&self) -> Seq<T> {
        self.local@
    }
}

impl<T> DeQueue<T> {
    /// The receiving end of the channel for other threads.
    pub closed spec fn end(self) -> RawRx<T> {
        self.sync.end()
    }

    /// What the channel has answered so far, each time that it was asked for a runnable.
    pub closed spec fn received(self) -> Seq<Option<T>> {
        self.sync.received()
    }

    /// The queue of the running thread, for it to push to.
    pub fn local(&mut self) -> (local: &mut LocalQueue<T>)
        ensures
            (*local)@ == old(self)@,
            final(self)@ == (*final(local))@,
            final(self).end() == old(self).end(),
            final(self).received() == old(self).received(),
    {
        &mut self.local
    }

    /// Pops a runnable: the first one of the running thread if it has any, else what the channel
    /// answers.
    pub fn pop(&mut self) -> (runnable: Option<T>)
        ensures
            final(self).end() == old(self).end(),
            old(self)@.len() > 0 ==> {
                &&& runnable == Some(old(self)@[0])
                &&& final(self)@ == old(self)@.drop_first()
                &&& final(self).received() == old(self).received()
            },
            old(self)@.len() == 0 ==> {
                &&& final(self).end().answers(runnable)
                &&& final(self).received() == old(self).received().push(runnable)
                &&& final(self)@ == old(self)@
            },
    {
        match self.local.pop() {
            Some(runnable) => Some(runnable),
            None => self.sync.try_recv(),
        }
    }
}

/// What the running thread does with its queue.
pub enum Step<T> {
    /// It pushes a runnable, through [`DeQueue::local`].
    Push(T),
    /// It pops one, with [`DeQueue::pop`].
    Pop,
}

/// What waits in the queue of the running thread after some steps.
pub open spec fn waiting<T>(v: Seq<T>, steps: Seq<Step<T>>) -> Seq<T>
    decreases steps.len(),
{
    if steps.len() == 0 {
        v
    } else {
        let before = waiting(v, steps.drop_last());
        match steps.last() {
            Step::Push(runnable) => before.push(runnable),
            Step::Pop => if before.len() > 0 {
                before.drop_first()
            } else {
                before
            },
        }
    }
}

/// The runnables that are pushed in some steps.
pub open spec fn pushed<T>(steps: Seq<Step<T>>) -> Seq<T>
    decreases steps.len(),
{
    if steps.len() == 0 {
        Seq::empty()
    } else {
        let before = pushed(steps.drop_last());
        match steps.last() {
            Step::Push(runnable) => before.push(runnable),
            Step::Pop => before,
        }
    }
}

/// The runnables that come out of the queue of the running thread in some steps.
pub open spec fn popped<T>(v: Seq<T>, steps: Seq<Step<T>>) -> Seq<T>
    decreases steps.len(),
{
    if steps.len() == 0 {
        Seq::empty()
    } else {
        let before = popped(v, steps.drop_last());
        let queue = waiting(v, steps.drop_last());
        match steps.last() {
            Step::Pop if queue.len() > 0 => before.push(queue[0]),
            _ => before,
        }
    }
}

/// On the running thread, however pushes and pops follow each other: what has come out, followed by
/// what still waits, is what was there at first, followed by what was pushed. So runnables come out
/// in push order, each once.
pub proof fn law_runnables_come_out_in_push_order<T>(v: Seq<T>, steps: Seq<Step<T>>)
    ensures
        popped(v, steps) + waiting(v, steps) == v + pushed(steps),
    decreases steps.len(),
{
    if steps.len() == 0 {
        assert(Seq::<T>::empty() + v =~= v + Seq::<T>::empty());
    } else {
        let init = steps.drop_last();
        law_runnables_come_out_in_push_order(v, init);
        let out = popped(v, init);
        let queue = waiting(v, init);
        match steps.last() {
            Step::Push(runnable) => {
                assert(out + queue.push(runnable) =~= (out + queue).push(runnable));
                assert(v + pushed(init).push(runnable) =~= (v + pushed(init)).push(runnable));
            },
            Step::Pop => {
                if queue.len() > 0 {
                    assert(out.push(queue[0]) + queue.drop_first() =~= out + queue);
                }
            },
        }
    }
}

} // verus!
