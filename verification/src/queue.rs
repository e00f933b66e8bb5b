use vstd::prelude::*;

use crate::channel::{bounded, is_channel, RawRx, RawTx, SyncRx, SyncTx};
use crate::config::ExecutorConfig;
use crate::laws::{law_waking_several_is_waking_each, law_waking_several_makes_them_hot};
use crate::lists::{
    law_make_cold, law_make_hot, law_make_hot_keeps_wakeable, law_operations_are_possible,
    law_push_back, law_remove, law_tasks_are_kept, law_wakeups_are_served_in_order, law_with_value,
    lemma_apart, lemma_queued, lemma_without, lists, placed, without, without_all, woken,
};
use crate::slot_queue::{QueueView, SlotQueue};
use crate::slots::{gave, none_given, took_back, TaskId};
use crate::task::{Pollable, Task};

verus! {

/// The tasks of an executor, and the channel through which other threads wake them.
pub struct TaskQueue {
    queue: SlotQueue,
    sync_tx: SyncTx<TaskId>,
    sync_rx: SyncRx<TaskId>,
}

impl View for TaskQueue {
    type V = QueueView;

    closed spec fn view(&self) -> QueueView {
        self.queue@
    }
}

impl QueueView {
    /// Whether the task `key` can be run: one that is queued must not be running already.
    pub open spec fn can_run(self, key: TaskId) -> bool {
        &&& self.can_make_cold(key)
        &&& self.items.contains_key(key) ==> self.items[key].value.poll is Some
    }

    /// The queue while the task `key` runs: what it holds is out, and it waits until it is woken.
    pub open spec fn running(self, key: TaskId) -> QueueView {
        if self.items.contains_key(key) {
            self.with_value(key, Task::holding(None)).make_cold(key)
        } else {
            self
        }
    }

    /// Whether the run of the task `key` can be brought to its end: one that is not done with
    /// must still be queued.
    pub open spec fn can_settle(self, key: TaskId, pending: bool) -> bool {
        if pending {
            self.items.contains_key(key)
        } else {
            self.can_remove(key)
        }
    }

    /// The queue once the task `key` has run: it gets back what it holds, or is done with.
    pub open spec fn settled(self, key: TaskId, inner: Option<Box<dyn Pollable>>) -> QueueView {
        if inner is Some {
            self.with_value(key, Task::holding(inner))
        } else {
            self.remove(key)
        }
    }
}

/// What a channel answers while it is emptied of the names `ids`: each of them, and then that no
/// other one waits. It is not asked more than `u64::MAX` times.
pub open spec fn answers(ids: Seq<TaskId>) -> Seq<Option<TaskId>> {
    let given = ids.map_values(|id: TaskId| Some(id));
    if ids.len() < u64::MAX {
        given.push(None)
    } else {
        given
    }
}

/// The names among some answers of a channel, in order.
pub open spec fn names(log: Seq<Option<TaskId>>) -> Seq<TaskId>
    decreases log.len(),
{
    if log.len() == 0 {
        Seq::empty()
    } else {
        match log.last() {
            Some(id) => names(log.drop_last()).push(id),
            None => names(log.drop_last()),
        }
    }
}

impl TaskQueue {
    /// The two ends of the channel through which other threads wake the tasks.
    pub closed spec fn ends(self) -> (RawTx<TaskId>, RawRx<TaskId>) {
        (self.sync_tx.end(), self.sync_rx.end())
    }

    /// The names that the queue has sent into its channel so far, each with what that came to.
    pub closed spec fn sent(self) -> Seq<(TaskId, Result<(), TaskId>)> {
        self.sync_tx.sent()
    }

    /// What the channel has answered so far, each time that it was asked for a name.
    pub closed spec fn received(self) -> Seq<Option<TaskId>> {
        self.sync_rx.received()
    }

    /// The names that have been given to tasks so far, by slot: none of them is given to another
    /// task, until its slot has given out all that it has and starts over.
    pub closed spec fn given(self) -> Map<nat, Set<TaskId>> {
        self.queue.given()
    }

    /// The sending end of the channel through which other threads wake the tasks.
    pub open spec fn channel(self) -> RawTx<TaskId> {
        self.ends().0
    }

    /// Whether `after` is this queue once the channel has been asked for the names `ids`, until no
    /// other one waited, and these tasks have been woken in order.
    pub open spec fn flushed(self, ids: Seq<TaskId>, after: TaskQueue) -> bool {
        &&& ids.len() <= u64::MAX
        &&& after@ == self@.make_all_hot(ids)
        &&& after.received() == self.received() + answers(ids)
        &&& after.ends() == self.ends()
        &&& after.sent() == self.sent()
        &&& after.given() == self.given()
    }

    /// Whether `after` is this queue once the channel has been asked for the names `ids`, until no
    /// other one waited, and these tasks have been woken in order, and then the task `id`.
    pub open spec fn scheduled(self, ids: Seq<TaskId>, id: TaskId, after: TaskQueue) -> bool {
        &&& ids.len() <= u64::MAX
        &&& after@ == self@.make_all_hot(ids).make_hot(id)
        &&& after.received() == self.received() + answers(ids)
        &&& after.ends() == self.ends()
        &&& after.sent() == self.sent()
        &&& after.given() == self.given()
    }

    /// A queue with no tasks, and with a channel of its own for other threads.
    pub fn new<E>(config: &ExecutorConfig<E>) -> (queue: Self)
        requires
            config.valid(),
        ensures
            queue@ == QueueView::empty(),
            is_channel(config.sync_queue_size, queue.ends()),
            queue.received() == Seq::<Option<TaskId>>::empty(),
            queue.sent() == Seq::<(TaskId, Result<(), TaskId>)>::empty(),
            queue.given() == none_given(),
    {
        let (sync_tx, sync_rx) = bounded(config.sync_queue_size);
        TaskQueue {
            queue: SlotQueue::new(config.local_queue_size),
            sync_tx: SyncTx::new(sync_tx),
            sync_rx,
        }
    }

    /// What names the task `id` to the outside.
    pub fn handle(&self, id: TaskId) -> (handle: Handle)
        ensures
            handle.id() == id,
    {
        Handle::new(id)
    }

    /// The way in for other threads: it leads into the channel of this queue.
    pub fn remote(&self) -> (remote: Remote)
        ensures
            remote.channel() == self.channel(),
            remote.sent() == Seq::<(TaskId, Result<(), TaskId>)>::empty(),
    {
        Remote { sync_tx: self.sync_tx.another() }
    }

    /// Wakes the tasks that other threads have asked for, in the order in which the channel hands
    /// them out.
    pub fn flush_sync(&mut self)
        requires
            old(self)@.wakeable(),
        ensures
            final(self)@.wakeable(),
            final(self)@.items.dom() == old(self)@.items.dom(),
            exists|ids: Seq<TaskId>| #[trigger] old(self).flushed(ids, *final(self)),
            final(self).ends() == old(self).ends(),
            final(self).sent() == old(self).sent(),
            final(self).given() == old(self).given(),
            // The channel is asked until no other name waits.
            old(self).received().len() < final(self).received().len(),
            final(self).received().take(old(self).received().len() as int)
                == old(self).received(),
            final(self).received().last() is Some ==> final(self).received().len()
                - old(self).received().len() == u64::MAX,
            forall|i: int|
                old(self).received().len() <= i < final(self).received().len() - 1 ==> (
                #[trigger] final(self).received()[i]) is Some,
            // Exactly the tasks whose names it has given are woken.
            forall|k: TaskId|
                old(self)@.items.contains_key(k) ==> {
                    &&& (#[trigger] final(self)@.items[k]).value == old(self)@.items[k].value
                    &&& final(self)@.items[k].is_hot == {
                        ||| old(self)@.items[k].is_hot
                        ||| final(self).received().skip(
                            old(self).received().len() as int,
                        ).contains(Some(k))
                    }
                },
            final(self)@ == old(self)@.make_all_hot(
                names(final(self).received().skip(old(self).received().len() as int)),
            ),
            forall|hot: Seq<TaskId>, cold: Seq<TaskId>| #[trigger]
                lists(old(self)@, hot, cold) ==> {
                    let ids = names(final(self).received().skip(old(self).received().len() as int));
                    lists(
                        final(self)@,
                        hot + woken(cold, ids),
                        without_all(cold, woken(cold, ids)),
                    )
                },
    {
        let ghost mut ids: Seq<TaskId> = Seq::empty();
        // The bound is out of reach: it only keeps the loop from being endless in principle.
        let mut left: u64 = u64::MAX;
        while left > 0
            invariant
                old(self)@.wakeable(),
                self@.wakeable(),
                self@.items.dom() == old(self)@.items.dom(),
                self@ == old(self)@.make_all_hot(ids),
                ids.len() + left == u64::MAX,
                self.received() == old(self).received() + ids.map_values(|id: TaskId| Some(id)),
                self.ends() == old(self).ends(),
                self.sent() == old(self).sent(),
                self.given() == old(self).given(),
            decreases left,
        {
            match self.sync_rx.try_recv() {
                Some(id) => {
                    proof {
                        law_make_hot_keeps_wakeable(self@, id);
                        assert(self@.can_make_hot(id));
                        assert(self@.make_hot(id).items.dom() =~= self@.items.dom());
                        assert(ids.push(id).drop_last() =~= ids);
                        assert(ids.push(id).map_values(|id: TaskId| Some(id)) =~= ids.map_values(
                            |id: TaskId| Some(id),
                        ).push(Some(id)));
                        ids = ids.push(id);
                    }
                    self.queue.make_hot(id);
                },
                None => {
                    assert(old(self).flushed(ids, *self));
                    proof {
                        lemma_flushed(*old(self), ids, *self);
                    }
                    return ;
                },
            }
            left -= 1;
        }
        assert(old(self).flushed(ids, *self));
        proof {
            lemma_flushed(*old(self), ids, *self);
        }
    }

    /// Wakes the task `id`, after those that other threads have asked for. Returns whether it is
    /// queued at all.
    pub fn schedule(&mut self, id: TaskId) -> (scheduled: bool)
        requires
            old(self)@.wakeable(),
        ensures
            scheduled == old(self)@.items.contains_key(id),
            final(self)@.wakeable(),
            exists|ids: Seq<TaskId>| #[trigger] old(self).scheduled(ids, id, *final(self)),
            final(self).ends() == old(self).ends(),
            final(self).sent() == old(self).sent(),
            final(self).given() == old(self).given(),
            // The channel is asked until no other name waits.
            old(self).received().len() < final(self).received().len(),
            final(self).received().take(old(self).received().len() as int)
                == old(self).received(),
            final(self).received().last() is Some ==> final(self).received().len()
                - old(self).received().len() == u64::MAX,
            forall|i: int|
                old(self).received().len() <= i < final(self).received().len() - 1 ==> (
                #[trigger] final(self).received()[i]) is Some,
            // Exactly the task and those whose names the channel has given are woken.
            old(self)@.items.contains_key(id) ==> final(self)@.items[id].is_hot,
            final(self)@.items.dom() == old(self)@.items.dom(),
            forall|k: TaskId|
                old(self)@.items.contains_key(k) ==> {
                    &&& (#[trigger] final(self)@.items[k]).value == old(self)@.items[k].value
                    &&& final(self)@.items[k].is_hot == {
                        ||| old(self)@.items[k].is_hot
                        ||| k == id
                        ||| final(self).received().skip(
                            old(self).received().len() as int,
                        ).contains(Some(k))
                    }
                },
            final(self)@ == old(self)@.make_all_hot(
                names(final(self).received().skip(old(self).received().len() as int)).push(id),
            ),
            forall|hot: Seq<TaskId>, cold: Seq<TaskId>| #[trigger]
                lists(old(self)@, hot, cold) ==> {
                    let ids = names(
                        final(self).received().skip(old(self).received().len() as int),
                    ).push(id);
                    lists(
                        final(self)@,
                        hot + woken(cold, ids),
                        without_all(cold, woken(cold, ids)),
                    )
                },
    {
        self.flush_sync();
        let ghost ids = choose|ids: Seq<TaskId>| #[trigger] old(self).flushed(ids, *self);
        proof {
            law_make_hot_keeps_wakeable(self@, id);
            assert(self@.can_make_hot(id));
            assert(self@.make_hot(id).items.dom() =~= self@.items.dom());
        }
        self.queue.make_hot(id);
        assert(old(self).scheduled(ids, id, *self));
        proof {
            lemma_scheduled(*old(self), ids, id, *self);
        }
        self.queue.contains(id)
    }

    /// Goes through the tasks: the hot ones, then the cold ones.
    pub fn iter(&self) -> (iter: TaskIter)
        ensures
            iter == TaskIter::start(self@),
            iter.head == self@.hot.head,
            iter.is_hot,
    {
        TaskIter { head: self.queue.hot_head(), is_hot: true }
    }

    /// Adds the task that `make` returns for its name, at the end of the hot list.
    pub fn push<F: FnOnce(TaskId) -> Task>(&mut self, make: F) -> (id: TaskId)
        requires
            old(self)@.can_push(),
            forall|id: TaskId| call_requires(make, (id,)),
        ensures
            !old(self)@.items.contains_key(id),
            gave(old(self).given(), id, final(self).given()),
            final(self).ends() == old(self).ends(),
            final(self).received() == old(self).received(),
            final(self).sent() == old(self).sent(),
            exists|task: Task|
                call_ensures(make, (id,), task) && final(self)@ == #[trigger] old(self)@.push_back(
                    id,
                    task,
                ),
    {
        self.queue.push_back_with(make)
    }

    /// Begins to run the task `id`, if it is queued: hands out what it holds, for it to be polled,
    /// and lets it wait until it is woken. [`TaskQueue::settle`] ends the run.
    pub fn run(&mut self, id: TaskId) -> (inner: Option<Box<dyn Pollable>>)
        requires
            old(self)@.can_run(id),
        ensures
            inner == (if old(self)@.items.contains_key(id) {
                old(self)@.items[id].value.poll
            } else {
                None
            }),
            final(self)@ == old(self)@.running(id),
            final(self).given() == old(self).given(),
            final(self).ends() == old(self).ends(),
            final(self).received() == old(self).received(),
            final(self).sent() == old(self).sent(),
    {
        let inner = match self.queue.get(id) {
            Some(task) => task.take(),
            None => {
                return None;
            },
        };
        self.queue.make_cold(id);
        inner
    }

    /// Ends the run of the task `id`: a task that is pending gets back what it holds, one that is
    /// done with leaves the queue.
    pub fn settle(&mut self, id: TaskId, inner: Option<Box<dyn Pollable>>)
        requires
            old(self)@.can_settle(id, inner is Some),
        ensures
            final(self)@ == old(self)@.settled(id, inner),
            inner is Some ==> {
                &&& final(self)@.items[id].value.poll == inner
                &&& final(self)@.items.dom() == old(self)@.items.dom()
                &&& forall|k: TaskId|
                    k != id ==> #[trigger] final(self)@.items[k] == old(self)@.items[k]
                &&& final(self)@.items[id].is_hot == old(self)@.items[id].is_hot
                &&& final(self)@.items[id].prev == old(self)@.items[id].prev
                &&& final(self)@.items[id].next == old(self)@.items[id].next
                &&& final(self)@.hot == old(self)@.hot
                &&& final(self)@.cold == old(self)@.cold
            },
            inner is None ==> final(self)@ == old(self)@.remove(id),
            inner is None && old(self)@.items.contains_key(id) ==> took_back(
                old(self).given(),
                id,
                final(self).given(),
            ),
            inner is Some || !old(self)@.items.contains_key(id) ==> final(self).given() == old(
                self,
            ).given(),
            final(self).ends() == old(self).ends(),
            final(self).received() == old(self).received(),
            final(self).sent() == old(self).sent(),
    {
        if inner.is_none() {
            self.queue.remove(id);
        } else if let Some(task) = self.queue.get(id) {
            task.poll = inner;
        }
    }

    /// Whether [`TaskQueue::push`] may be called.
    pub fn can_push(&self) -> (yes: bool)
        ensures
            yes == self@.can_push(),
    {
        self.queue.can_push()
    }

    /// Whether [`TaskQueue::run`] may be called with `id`.
    pub fn can_run(&self, id: TaskId) -> (yes: bool)
        ensures
            yes == self@.can_run(id),
    {
        self.queue.can_make_cold(id) && self.queue.is_idle(id)
    }

    /// Whether [`TaskQueue::settle`] may be called with `id`.
    pub fn can_settle(&self, id: TaskId, pending: bool) -> (yes: bool)
        ensures
            yes == self@.can_settle(id, pending),
    {
        if pending {
            self.queue.contains(id)
        } else {
            self.queue.can_remove(id)
        }
    }

    /// Whether [`TaskQueue::flush_sync`] and [`TaskQueue::schedule`] may be called.
    pub fn wakeable(&self) -> (yes: bool)
        ensures
            yes == self@.wakeable(),
    {
        self.queue.wakeable()
    }
}

/// The way into a queue for other threads.
pub struct Remote {
    sync_tx: SyncTx<TaskId>,
}

impl Remote {
    /// The sending end of the channel that this leads into.
    pub closed spec fn channel(self) -> RawTx<TaskId> {
        self.sync_tx.end()
    }

    /// The names that have been sent so far, each with what that came to.
    pub closed spec fn sent(self) -> Seq<(TaskId, Result<(), TaskId>)> {
        self.sync_tx.sent()
    }

    /// Whether `after` is this way in once the name `id` has been sent, one time, and that came
    /// to `sent`.
    pub open spec fn scheduled(
        self,
        id: TaskId,
        sent: Result<(), TaskId>,
        after: Remote,
    ) -> bool {
        &&& self.channel().sends(id, sent)
        &&& after.channel() == self.channel()
        &&& after.sent() == self.sent().push((id, sent))
    }

    /// Asks for the task `id` to be woken: sends its name into the channel, and returns what that
    /// came to. This waits while too many requests wait already. The name comes back if the queue
    /// is gone.
    pub fn schedule(&mut self, id: TaskId) -> (sent: Result<(), TaskId>)
        ensures
            old(self).scheduled(id, sent, *final(self)),
            old(self).channel().sends(id, sent),
            final(self).channel() == old(self).channel(),
            final(self).sent() == old(self).sent().push((id, sent)),
            sent matches Err(back) ==> back == id,
    {
        self.sync_tx.send(id)
    }
}

/// What is found where a queue was left.
pub enum Shared<'a> {
    /// The queue is gone.
    Dropped,
    /// The queue, on its own thread.
    Local(&'a mut TaskQueue),
    /// The way into the queue, on another thread. The queue itself cannot be asked from there, so
    /// whether it still holds the task has to be known otherwise.
    Remote {
        /// The way into the queue.
        remote: &'a mut Remote,
        /// Whether the task is still there.
        alive: bool,
    },
}

/// Names a task to the outside.
#[derive(Debug, Clone, Copy)]
pub struct Handle {
    id: TaskId,
}

impl Handle {
    /// The task that is named.
    pub closed spec fn id(self) -> TaskId {
        self.id
    }

    /// What names the task `id` to the outside.
    pub fn new(id: TaskId) -> (handle: Self)
        ensures
            handle.id() == id,
    {
        Handle { id }
    }

    /// Enqueues the task for execution.
    ///
    /// Returns `true` if the task was enqueued successfully, or `false` otherwise, due to either
    /// executor or the task being dropped.
    pub fn schedule(&self, shared: Shared<'_>) -> (scheduled: bool)
        requires
            shared matches Shared::Local(queue) ==> (*queue)@.wakeable(),
        ensures
            shared is Dropped ==> !scheduled,
            shared matches Shared::Local(queue) ==> {
                &&& scheduled == (*queue)@.items.contains_key(self.id())
                &&& final(queue)@.wakeable()
                &&& exists|ids: Seq<TaskId>|
                    #[trigger] (*queue).scheduled(ids, self.id(), *final(queue))
                &&& scheduled ==> final(queue)@.items[self.id()].is_hot
            },
            shared matches Shared::Remote { remote, alive: true } ==> exists|
                sent: Result<(), TaskId>,
            |
                {
                    &&& #[trigger] (*remote).scheduled(self.id(), sent, *final(remote))
                    &&& scheduled == (sent is Ok)
                },
            shared matches Shared::Remote { remote, alive: false } ==> !scheduled && *final(remote)
                == *remote,
    {
        match shared {
            Shared::Dropped => false,
            Shared::Local(queue) => queue.schedule(self.id),
            Shared::Remote { remote, alive } => {
                assert(self.id() == self.id);
                alive && remote.schedule(self.id).is_ok()
            },
        }
    }

    /// Whether the queue is there, and on this thread.
    pub fn is_local(&self, shared: &Shared<'_>) -> (local: bool)
        ensures
            local == (shared is Local),
    {
        match shared {
            Shared::Local(_) => true,
            _ => false,
        }
    }
}

/// A place in a queue that is gone through.
#[derive(Debug, Clone, Copy)]
pub struct TaskIter {
    /// The task to come next, if the list has another one.
    pub head: Option<TaskId>,
    /// Whether the hot list is being gone through.
    pub is_hot: bool,
}

impl TaskIter {
    /// The place before the first task.
    pub open spec fn start(v: QueueView) -> TaskIter {
        TaskIter { head: v.hot.head, is_hot: true }
    }

    /// The place once the hot list has been left, if it has come to its end.
    pub open spec fn turned(self, v: QueueView) -> TaskIter {
        if self.head is None && self.is_hot {
            TaskIter { head: v.cold.head, is_hot: false }
        } else {
            self
        }
    }

    /// The next place.
    pub open spec fn advanced(self, v: QueueView) -> TaskIter {
        match self.turned(v).head {
            Some(id) => TaskIter { head: v.next(id), ..self.turned(v) },
            None => self.turned(v),
        }
    }

    /// The next task, as the queue is now.
    pub fn next(&mut self, queue: &TaskQueue) -> (id: Option<TaskId>)
        ensures
            id == old(self).turned(queue@).head,
            *final(self) == old(self).advanced(queue@),
            id == (if old(self).head is None && old(self).is_hot {
                queue@.cold.head
            } else {
                old(self).head
            }),
            final(self).is_hot == (old(self).is_hot && old(self).head is Some),
            final(self).head == (match id {
                Some(id) if queue@.items.contains_key(id) => queue@.items[id].next,
                _ => None,
            }),
    {
        if self.head.is_none() && self.is_hot {
            self.head = queue.queue.cold_head();
            self.is_hot = false;
        }
        let id = match self.head {
            Some(id) => id,
            None => {
                return None;
            },
        };
        self.head = queue.queue.next(id);
        Some(id)
    }
}

/// Whether `iter` stands before the task at position `i` of the hot list followed by the cold one.
pub open spec fn stands_at(
    iter: TaskIter,
    hot: Seq<TaskId>,
    cold: Seq<TaskId>,
    i: int,
) -> bool {
    if iter.is_hot {
        &&& 0 <= i <= hot.len()
        &&& iter.head == (if i < hot.len() {
            Some(hot[i])
        } else {
            None
        })
    } else {
        &&& hot.len() <= i <= hot.len() + cold.len()
        &&& iter.head == (if i < hot.len() + cold.len() {
            Some(cold[i - hot.len()])
        } else {
            None
        })
    }
}

/// Going through a queue yields the tasks of the hot list, then those of the cold list, each of
/// them once and in order, and then nothing more. It starts before the first one, and from any
/// place it yields the task there and goes on to the next place.
pub proof fn law_iteration(
    v: QueueView,
    hot: Seq<TaskId>,
    cold: Seq<TaskId>,
    iter: TaskIter,
    i: int,
)
    requires
        lists(v, hot, cold),
        stands_at(iter, hot, cold, i),
    ensures
        stands_at(TaskIter::start(v), hot, cold, 0),
        iter.turned(v).head == (if i < hot.len() + cold.len() {
            Some((hot + cold)[i])
        } else {
            None
        }),
        i < hot.len() + cold.len() ==> stands_at(iter.advanced(v), hot, cold, i + 1),
        i == hot.len() + cold.len() ==> stands_at(iter.advanced(v), hot, cold, i),
{
    if i < hot.len() {
        assert(placed(v, hot, true, i));
    } else if i < hot.len() + cold.len() {
        assert(placed(v, cold, false, i - hot.len()));
    }
}

/// A hot task that is run leaves the hot list, and waits at the end of the cold one until it is
/// woken. When it is pending it stays where it then is, with what it holds; when it is done with,
/// it leaves the queue. The others keep their order throughout.
pub proof fn law_run(
    v: QueueView,
    hot: Seq<TaskId>,
    cold: Seq<TaskId>,
    id: TaskId,
    inner: Option<Box<dyn Pollable>>,
)
    requires
        lists(v, hot, cold),
        hot.contains(id),
    ensures
        v.running(id).items[id].value.poll is None,
        lists(v.running(id), without(hot, id), cold.push(id)),
        v.running(id).can_settle(id, true),
        v.running(id).can_settle(id, false),
        inner is Some ==> {
            &&& lists(v.running(id).settled(id, inner), without(hot, id), cold.push(id))
            &&& v.running(id).settled(id, inner).items[id].value.poll == inner
        },
        lists(v.running(id).settled(id, None), without(hot, id), cold),
        !v.running(id).settled(id, None).items.contains_key(id),
{
    lemma_queued(v, hot, true, id);
    let taken = v.with_value(id, Task::holding(None));
    law_with_value(v, hot, cold, id, Task::holding(None));
    lemma_apart(v, cold, false, id);
    law_make_cold(taken, hot, cold, id);
    law_operations_are_possible(taken, hot, cold, id);
    law_tasks_are_kept(taken, id, id);
    let running = v.running(id);
    law_operations_are_possible(running, without(hot, id), cold.push(id), id);
    law_with_value(running, without(hot, id), cold.push(id), id, Task::holding(inner));
    law_remove(running, without(hot, id), cold.push(id), id);
    lemma_without(hot, id);
    assert(cold.push(id)[cold.len() as int] == id);
    lemma_push_without(cold, id);
}

/// A task that is woken while it runs, and is pending, comes last in the hot list.
pub proof fn law_run_and_wake(
    v: QueueView,
    hot: Seq<TaskId>,
    cold: Seq<TaskId>,
    id: TaskId,
    inner: Option<Box<dyn Pollable>>,
)
    requires
        lists(v, hot, cold),
        hot.contains(id),
        inner is Some,
    ensures
        lists(v.running(id).make_hot(id).settled(id, inner), without(hot, id).push(id), cold),
{
    law_run(v, hot, cold, id, inner);
    let running = v.running(id);
    assert(cold.push(id)[cold.len() as int] == id);
    law_make_hot(running, without(hot, id), cold.push(id), id);
    lemma_queued(v, hot, true, id);
    lemma_apart(v, cold, false, id);
    lemma_push_without(cold, id);
    lemma_queued(running, cold.push(id), false, id);
    law_operations_are_possible(running, without(hot, id), cold.push(id), id);
    law_tasks_are_kept(running, id, id);
    law_with_value(
        running.make_hot(id),
        without(hot, id).push(id),
        cold,
        id,
        Task::holding(inner),
    );
}

/// A task that is woken only to be given up is hot, and once that run is over it is gone from the
/// queue. The others keep their order.
pub proof fn law_woken_task_can_be_given_up(
    v: QueueView,
    hot: Seq<TaskId>,
    cold: Seq<TaskId>,
    id: TaskId,
)
    requires
        lists(v, hot, cold),
        v.items.contains_key(id),
    ensures
        v.make_hot(id).items[id].is_hot,
        lists(v.make_hot(id).running(id).settled(id, None), without(hot, id), without(cold, id)),
        !v.make_hot(id).running(id).settled(id, None).items.contains_key(id),
{
    let woken = v.make_hot(id);
    law_make_hot(v, hot, cold, id);
    lemma_without(cold, id);
    lemma_without(hot, id);
    if cold.contains(id) {
        lemma_queued(v, cold, false, id);
        lemma_apart(v, hot, true, id);
        assert(hot.push(id)[hot.len() as int] == id);
        law_run(woken, hot.push(id), without(cold, id), id, v.items[id].value.poll);
        lemma_push_without(hot, id);
    } else {
        law_run(woken, hot, without(cold, id), id, v.items[id].value.poll);
    }
}

/// What may happen to a queue while one of its tasks runs.
pub enum Event {
    /// A task is woken.
    Woken(TaskId),
    /// A task is added.
    Spawned(TaskId, Task),
}

impl QueueView {
    /// The queue after some events.
    pub open spec fn after(self, events: Seq<Event>) -> QueueView
        decreases events.len(),
    {
        if events.len() == 0 {
            self
        } else {
            let before = self.after(events.drop_last());
            match events.last() {
                Event::Woken(id) => before.make_hot(id),
                Event::Spawned(id, task) => before.push_back(id, task),
            }
        }
    }

    /// Whether the events can happen: a task that is added gets a name that is not queued.
    pub open spec fn allows(self, events: Seq<Event>) -> bool
        decreases events.len(),
    {
        events.len() > 0 ==> {
            &&& self.allows(events.drop_last())
            &&& events.last() matches Event::Spawned(id, _) ==> !self.after(
                events.drop_last(),
            ).items.contains_key(id)
        }
    }
}

/// Whatever is woken and added, the tasks that are hot already stay at the head of the hot list, in
/// their order, and nothing leaves the queue.
pub proof fn law_events_do_not_overtake(
    v: QueueView,
    hot: Seq<TaskId>,
    cold: Seq<TaskId>,
    events: Seq<Event>,
)
    requires
        lists(v, hot, cold),
        v.allows(events),
    ensures
        exists|more: Seq<TaskId>, rest: Seq<TaskId>| #[trigger]
            lists(v.after(events), hot + more, rest),
        forall|k: TaskId| v.items.contains_key(k) ==> #[trigger] v.after(
            events,
        ).items.contains_key(k),
    decreases events.len(),
{
    if events.len() == 0 {
        assert(hot + Seq::<TaskId>::empty() =~= hot);
        assert(lists(v.after(events), hot + Seq::<TaskId>::empty(), cold));
    } else {
        let init = events.drop_last();
        law_events_do_not_overtake(v, hot, cold, init);
        let before = v.after(init);
        let (more, rest) = choose|more: Seq<TaskId>, rest: Seq<TaskId>| #[trigger]
            lists(before, hot + more, rest);
        match events.last() {
            Event::Woken(id) => {
                law_make_hot(before, hot + more, rest, id);
                law_operations_are_possible(before, hot + more, rest, id);
                law_tasks_are_kept(before, id, id);
                if rest.contains(id) {
                    assert((hot + more).push(id) =~= hot + more.push(id));
                    assert(lists(v.after(events), hot + more.push(id), without(rest, id)));
                } else {
                    assert(lists(v.after(events), hot + more, without(rest, id)));
                }
            },
            Event::Spawned(id, task) => {
                law_push_back(before, hot + more, rest, id, task);
                assert((hot + more).push(id) =~= hot + more.push(id));
                assert(lists(v.after(events), hot + more.push(id), rest));
            },
        }
    }
}

/// Once the first hot task has run, whatever was woken and added meanwhile and whatever it came to,
/// the hot list is the rest of what it was, followed by those that came to it meanwhile.
pub proof fn law_run_leaves_the_rest(
    v: QueueView,
    hot: Seq<TaskId>,
    cold: Seq<TaskId>,
    events: Seq<Event>,
    inner: Option<Box<dyn Pollable>>,
)
    requires
        lists(v, hot, cold),
        hot.len() > 0,
        v.running(hot[0]).allows(events),
    ensures
        v.can_run(hot[0]) <==> v.items[hot[0]].value.poll is Some,
        v.running(hot[0]).after(events).can_settle(hot[0], inner is Some),
        exists|more: Seq<TaskId>, rest: Seq<TaskId>| #[trigger]
            lists(
                v.running(hot[0]).after(events).settled(hot[0], inner),
                hot.drop_first() + more,
                rest,
            ),
{
    let id = hot[0];
    let head = hot.drop_first();
    assert(hot.contains(id));
    lemma_queued(v, hot, true, id);
    law_operations_are_possible(v, hot, cold, id);
    law_run(v, hot, cold, id, inner);
    assert(hot.index_of(id) == 0);
    assert(without(hot, id) =~= head);
    let running = v.running(id);
    law_events_do_not_overtake(running, head, cold.push(id), events);
    let (more, rest) = choose|more: Seq<TaskId>, rest: Seq<TaskId>| #[trigger]
        lists(running.after(events), head + more, rest);
    let over = running.after(events);
    assert(over.items.contains_key(id));
    law_operations_are_possible(over, head + more, rest, id);
    if inner is Some {
        law_with_value(over, head + more, rest, id, Task::holding(inner));
        assert(lists(over.settled(id, inner), head + more, rest));
    } else {
        law_remove(over, head + more, rest, id);
        assert(!head.contains(id)) by {
            if head.contains(id) {
                assert(hot[head.index_of(id) + 1] == hot[0]);
            }
        }
        lemma_without_behind(head, more, id);
        assert(lists(over.settled(id, inner), head + without(more, id), without(rest, id)));
    }
}

/// Taking out a task that is not among the first ones.
proof fn lemma_without_behind(head: Seq<TaskId>, more: Seq<TaskId>, id: TaskId)
    requires
        (head + more).no_duplicates(),
        !head.contains(id),
    ensures
        without(head + more, id) == head + without(more, id),
{
    let all = head + more;
    if more.contains(id) {
        let i = more.index_of(id);
        assert(all[head.len() + i] == id);
        assert(all.index_of(id) == head.len() + i);
        assert(all.remove(head.len() + i) =~= head + more.remove(i));
    } else if all.contains(id) {
        let i = all.index_of(id);
        if i < head.len() {
            assert(head[i] == id);
        } else {
            assert(more[i - head.len()] == id);
        }
    }
}

/// Taking out a task that has been put at the end.
proof fn lemma_push_without(s: Seq<TaskId>, id: TaskId)
    requires
        !s.contains(id),
    ensures
        without(s.push(id), id) == s,
{
    assert(s.push(id)[s.len() as int] == id);
    let i = s.push(id).index_of(id);
    if i < s.len() {
        assert(s[i] == id);
    }
    assert(without(s.push(id), id) =~= s);
}

/// The names among the answers of a channel that was emptied of `ids` are `ids`.
proof fn lemma_names(ids: Seq<TaskId>, id: TaskId)
    ensures
        names(answers(ids)) == ids,
        answers(ids).contains(Some(id)) <==> ids.contains(id),
{
    let given = ids.map_values(|id: TaskId| Some(id));
    lemma_names_of(ids);
    if ids.len() < u64::MAX {
        assert(answers(ids).drop_last() =~= given);
    }
    if ids.contains(id) {
        assert(answers(ids)[ids.index_of(id)] == Some(id));
    }
    if answers(ids).contains(Some(id)) {
        let i = answers(ids).index_of(Some(id));
        assert(ids[i] == id);
    }
}

/// The names among some names are these.
proof fn lemma_names_of(ids: Seq<TaskId>)
    ensures
        names(ids.map_values(|id: TaskId| Some(id))) == ids,
    decreases ids.len(),
{
    let given = ids.map_values(|id: TaskId| Some(id));
    if ids.len() > 0 {
        lemma_names_of(ids.drop_last());
        assert(given.drop_last() =~= ids.drop_last().map_values(|id: TaskId| Some(id)));
        assert(ids.drop_last().push(ids.last()) =~= ids);
    } else {
        assert(names(given) =~= ids);
    }
}

/// What a log looks like once the answers to emptying a channel have been added to it.
proof fn lemma_log(before: Seq<Option<TaskId>>, ids: Seq<TaskId>, after: Seq<Option<TaskId>>)
    requires
        ids.len() <= u64::MAX,
        after == before + answers(ids),
    ensures
        before.len() < after.len(),
        after.take(before.len() as int) == before,
        after.skip(before.len() as int) == answers(ids),
        after.last() is Some ==> after.len() - before.len() == u64::MAX,
        forall|i: int| before.len() <= i < after.len() - 1 ==> (#[trigger] after[i]) is Some,
{
    assert(after.take(before.len() as int) =~= before);
    assert(after.skip(before.len() as int) =~= answers(ids));
    assert forall|i: int| before.len() <= i < after.len() - 1 implies (
    #[trigger] after[i]) is Some by {
        assert(after[i] == answers(ids)[i - before.len()]);
    }
}

/// The laws of a flush, for all tasks and lists.
proof fn lemma_flushed(before: TaskQueue, ids: Seq<TaskId>, after: TaskQueue)
    requires
        before.flushed(ids, after),
        before@.wakeable(),
    ensures
        before.received().len() < after.received().len(),
        after.received().take(before.received().len() as int) == before.received(),
        after.received().last() is Some ==> after.received().len() - before.received().len()
            == u64::MAX,
        forall|i: int|
            before.received().len() <= i < after.received().len() - 1 ==> (
            #[trigger] after.received()[i]) is Some,
        names(after.received().skip(before.received().len() as int)) == ids,
        forall|k: TaskId|
            before@.items.contains_key(k) ==> {
                &&& (#[trigger] after@.items[k]).value == before@.items[k].value
                &&& after@.items[k].is_hot == (before@.items[k].is_hot || after.received().skip(
                    before.received().len() as int,
                ).contains(Some(k)))
            },
        forall|hot: Seq<TaskId>, cold: Seq<TaskId>| #[trigger]
            lists(before@, hot, cold) ==> lists(
                after@,
                hot + woken(cold, ids),
                without_all(cold, woken(cold, ids)),
            ),
{
    lemma_log(before.received(), ids, after.received());
    assert forall|k: TaskId| before@.items.contains_key(k) implies {
        &&& (#[trigger] after@.items[k]).value == before@.items[k].value
        &&& after@.items[k].is_hot == (before@.items[k].is_hot || answers(ids).contains(Some(k)))
    } by {
        lemma_names(ids, k);
        law_waking_several_makes_them_hot(before@, ids, k);
    }
    assert(names(answers(ids)) == ids) by {
        lemma_names(ids, arbitrary());
    }
    assert forall|hot: Seq<TaskId>, cold: Seq<TaskId>| #[trigger] lists(before@, hot, cold) implies
        lists(after@, hot + woken(cold, ids), without_all(cold, woken(cold, ids))) by {
        law_wakeups_are_served_in_order(before@, hot, cold, ids);
    }
}

/// The laws of a wake-up, for all tasks and lists.
proof fn lemma_scheduled(before: TaskQueue, ids: Seq<TaskId>, id: TaskId, after: TaskQueue)
    requires
        before.scheduled(ids, id, after),
        before@.wakeable(),
    ensures
        before.received().len() < after.received().len(),
        after.received().take(before.received().len() as int) == before.received(),
        after.received().last() is Some ==> after.received().len() - before.received().len()
            == u64::MAX,
        forall|i: int|
            before.received().len() <= i < after.received().len() - 1 ==> (
            #[trigger] after.received()[i]) is Some,
        names(after.received().skip(before.received().len() as int)) == ids,
        after@ == before@.make_all_hot(ids.push(id)),
        after@.items.dom() == before@.items.dom(),
        after@.wakeable(),
        forall|k: TaskId|
            before@.items.contains_key(k) ==> {
                &&& (#[trigger] after@.items[k]).value == before@.items[k].value
                &&& after@.items[k].is_hot == (before@.items[k].is_hot || k == id
                    || after.received().skip(before.received().len() as int).contains(Some(k)))
            },
        forall|hot: Seq<TaskId>, cold: Seq<TaskId>| #[trigger]
            lists(before@, hot, cold) ==> lists(
                after@,
                hot + woken(cold, ids.push(id)),
                without_all(cold, woken(cold, ids.push(id))),
            ),
{
    lemma_log(before.received(), ids, after.received());
    law_waking_several_is_waking_each(before@, ids, id);
    let all = ids.push(id);
    assert forall|k: TaskId| before@.items.contains_key(k) implies {
        &&& (#[trigger] after@.items[k]).value == before@.items[k].value
        &&& after@.items[k].is_hot == (before@.items[k].is_hot || k == id || answers(ids).contains(
            Some(k),
        ))
    } by {
        lemma_names(ids, k);
        law_waking_several_makes_them_hot(before@, all, k);
        if ids.contains(k) {
            assert(all[ids.index_of(k)] == k);
        }
        if all.contains(k) && k != id {
            assert(ids[all.index_of(k)] == k);
        }
        assert(all[ids.len() as int] == id);
    }
    assert(names(answers(ids)) == ids) by {
        lemma_names(ids, id);
    }
    assert forall|k: TaskId| before@.items.contains_key(k) <==> after@.items.contains_key(k) by {
        law_waking_several_makes_them_hot(before@, all, k);
    }
    assert(after@.items.dom() =~= before@.items.dom());
    assert(after@.wakeable()) by {
        law_waking_several_makes_them_hot(before@, all, id);
    }
    assert forall|hot: Seq<TaskId>, cold: Seq<TaskId>| #[trigger] lists(before@, hot, cold) implies
        lists(after@, hot + woken(cold, all), without_all(cold, woken(cold, all))) by {
        law_wakeups_are_served_in_order(before@, hot, cold, all);
    }
}

/// A flush wakes every task whose name the channel hands out in it, and no other one. The channel is
/// asked until it answers that no other name waits. Every task stays queued and holds what it held.
/// In a queue of two lists, the hot ones keep their places and the woken ones come behind them.
pub proof fn law_a_flush_wakes_all_that_was_received(
    before: TaskQueue,
    ids: Seq<TaskId>,
    after: TaskQueue,
    hot: Seq<TaskId>,
    cold: Seq<TaskId>,
    k: TaskId,
)
    requires
        before.flushed(ids, after),
        before@.wakeable(),
    ensures
        ({
            let n = before.received().len() as int;
            let news = after.received().skip(n);
            &&& after.received().take(n) == before.received()
            &&& news.len() > 0
            &&& news.last() is Some ==> news.len() == u64::MAX
            &&& forall|i: int| 0 <= i < news.len() - 1 ==> (#[trigger] news[i]) is Some
            &&& after@.items.contains_key(k) <==> before@.items.contains_key(k)
            &&& before@.items.contains_key(k) ==> {
                &&& after@.items[k].value == before@.items[k].value
                &&& after@.items[k].is_hot == (before@.items[k].is_hot || news.contains(Some(k)))
            }
            &&& after@ == before@.make_all_hot(names(news))
            &&& lists(before@, hot, cold) ==> lists(
                after@,
                hot + woken(cold, names(news)),
                without_all(cold, woken(cold, names(news))),
            )
            &&& after@.wakeable()
            &&& after.ends() == before.ends()
            &&& after.sent() == before.sent()
            &&& after.given() == before.given()
        }),
{
    lemma_flushed(before, ids, after);
    law_waking_several_makes_them_hot(before@, ids, k);
    let n = before.received().len() as int;
    let news = after.received().skip(n);
    assert forall|i: int| 0 <= i < news.len() - 1 implies (#[trigger] news[i]) is Some by {
        assert(news[i] == after.received()[i + n]);
    }
}

/// Waking a task wakes it, and before it every task whose name the channel hands out, and no other
/// one; whichever thread's request comes first in the channel is served first. Every task stays
/// queued and holds what it held.
pub proof fn law_a_scheduled_task_is_hot(
    before: TaskQueue,
    ids: Seq<TaskId>,
    id: TaskId,
    after: TaskQueue,
    hot: Seq<TaskId>,
    cold: Seq<TaskId>,
    k: TaskId,
)
    requires
        before.scheduled(ids, id, after),
        before@.wakeable(),
    ensures
        ({
            let n = before.received().len() as int;
            let news = after.received().skip(n);
            &&& after.received().take(n) == before.received()
            &&& news.len() > 0
            &&& news.last() is Some ==> news.len() == u64::MAX
            &&& forall|i: int| 0 <= i < news.len() - 1 ==> (#[trigger] news[i]) is Some
            &&& before@.items.contains_key(id) ==> after@.items[id].is_hot
            &&& after@.items.contains_key(k) <==> before@.items.contains_key(k)
            &&& before@.items.contains_key(k) ==> {
                &&& after@.items[k].value == before@.items[k].value
                &&& after@.items[k].is_hot == (before@.items[k].is_hot || k == id
                    || news.contains(Some(k)))
            }
            &&& after@ == before@.make_all_hot(names(news).push(id))
            &&& lists(before@, hot, cold) ==> lists(
                after@,
                hot + woken(cold, names(news).push(id)),
                without_all(cold, woken(cold, names(news).push(id))),
            )
            &&& after@.wakeable()
            &&& after.ends() == before.ends()
            &&& after.sent() == before.sent()
            &&& after.given() == before.given()
        }),
{
    lemma_scheduled(before, ids, id, after);
    let n = before.received().len() as int;
    let news = after.received().skip(n);
    assert forall|i: int| 0 <= i < news.len() - 1 implies (#[trigger] news[i]) is Some by {
        assert(news[i] == after.received()[i + n]);
    }
    assert(before@.items.contains_key(id) ==> after@.items[id].is_hot);
}

/// The names among some answers are those that were given, each as often and in the same order: an
/// answer that gives a name adds it at the end, one that gives none adds nothing.
pub proof fn law_names_are_those_given(log: Seq<Option<TaskId>>, id: TaskId)
    ensures
        names(Seq::empty()) == Seq::<TaskId>::empty(),
        names(log.push(Some(id))) == names(log).push(id),
        names(log.push(None)) == names(log),
        names(log).contains(id) <==> log.contains(Some(id)),
    decreases log.len(),
{
    assert(log.push(Some(id)).drop_last() =~= log);
    assert(log.push(None).drop_last() =~= log);
    if log.len() > 0 {
        let init = log.drop_last();
        law_names_are_those_given(init, id);
        if init.contains(Some(id)) {
            assert(log[init.index_of(Some(id))] == Some(id));
        }
        if log.contains(Some(id)) && log.last() != Some(id) {
            assert(init[log.index_of(Some(id))] == Some(id));
        }
        assert(log[log.len() - 1] == log.last());
        match log.last() {
            Some(last) => {
                let all = names(init).push(last);
                assert(all[names(init).len() as int] == last);
                if names(init).contains(id) {
                    assert(all[names(init).index_of(id)] == id);
                }
                if all.contains(id) && id != last {
                    assert(names(init)[all.index_of(id)] == id);
                }
            },
            None => {},
        }
    }
}

/// A request of another thread is sent into the channel that the way in leads to, one time, and
/// what that came to is kept account of.
pub proof fn law_a_request_is_sent_once(
    before: Remote,
    id: TaskId,
    sent: Result<(), TaskId>,
    after: Remote,
)
    requires
        before.scheduled(id, sent, after),
    ensures
        before.channel().sends(id, sent),
        after.channel() == before.channel(),
        after.sent().len() == before.sent().len() + 1,
        after.sent().drop_last() == before.sent(),
        after.sent().last() == (id, sent),
{
    assert(after.sent().drop_last() =~= before.sent());
}

/// What is said of a queue, and of a way into it, is said of what it is made of: the account of what
/// was sent and received is that of its own ends of the channel.
proof fn law_accounts_are_those_of_the_ends(queue: TaskQueue, remote: Remote)
    ensures
        queue@ == queue.queue@,
        queue.sent() == queue.sync_tx.sent(),
        queue.received() == queue.sync_rx.received(),
        queue.ends() == (queue.sync_tx.end(), queue.sync_rx.end()),
        queue.channel() == queue.sync_tx.end(),
        queue.given() == queue.queue.given(),
        remote.channel() == remote.sync_tx.end(),
        remote.sent() == remote.sync_tx.sent(),
{
}

/// What the channel has answered tells which tasks were woken, and in which order.
pub proof fn law_answers_tell_what_was_woken(
    before: TaskQueue,
    ids: Seq<TaskId>,
    others: Seq<TaskId>,
    after: TaskQueue,
)
    requires
        before.flushed(ids, after),
        before.flushed(others, after),
    ensures
        ids == others,
{
    let n = before.received().len() as int;
    let log = after.received().skip(n);
    assert(log =~= answers(ids));
    assert(log =~= answers(others));
    if ids.len() < others.len() {
        assert(answers(ids)[ids.len() as int] is None);
        assert(answers(others)[ids.len() as int] is Some);
    }
    if others.len() < ids.len() {
        assert(answers(others)[others.len() as int] is None);
        assert(answers(ids)[others.len() as int] is Some);
    }
    assert forall|i: int| 0 <= i < ids.len() implies ids[i] == others[i] by {
        assert(answers(ids)[i] == Some(ids[i]));
        assert(answers(others)[i] == Some(others[i]));
    }
    assert(ids =~= others);
}

/// Nothing is done about a name that is not queued.
pub proof fn law_unknown_names_change_nothing(v: QueueView, id: TaskId)
    requires
        !v.items.contains_key(id),
    ensures
        v.can_run(id),
        v.running(id) == v,
        v.can_settle(id, false),
        v.settled(id, None) == v,
        v.make_hot(id) == v,
        v.make_cold(id) == v,
        v.next(id) is None,
{
}

} // verus!
