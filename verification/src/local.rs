use std::collections::VecDeque;
use vstd::prelude::*;

verus! {

/// A first-in, first-out queue that one thread has to itself.
#[derive(Debug)]
pub struct LocalQueue<T> {
    queue: VecDeque<T>,
}

impl<T> View for LocalQueue<T> {
    type V = Seq<T>;

    /// The items that wait, from the one to leave first.
    closed spec fn view(&self) -> Seq<T> {
        self.queue@
    }
}

impl<T> LocalQueue<T> {
    /// Creates an empty `LocalQueue` with capacity.
    pub fn with_capacity(cap: usize) -> (queue: Self)
        ensures
            queue@.len() == 0,
    {
        LocalQueue { queue: VecDeque::with_capacity(cap) }
    }

    /// Pushes an item to the back of the queue.
    pub fn push(&mut self, item: T)
        ensures
            final(self)@ == old(self)@.push(item),
    {
        self.queue.push_back(item);
    }

    /// Pops an item from the front of the queue, returning `None` if empty.
    pub fn pop(&mut self) -> (item: Option<T>)
        ensures
            old(self)@.len() == 0 ==> item is None && final(self)@ == old(self)@,
            old(self)@.len() > 0 ==> item == Some(old(self)@[0]) && final(self)@
                == old(self)@.drop_first(),
    {
        self.queue.pop_front()
    }

    /// Returns `true` if the queue is empty.
    pub fn is_empty(&self) -> (empty: bool)
        ensures
            empty == (self@.len() == 0),
    {
        self.queue.len() == 0
    }
}

} // verus!
