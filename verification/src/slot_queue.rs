use vstd::prelude::*;

use crate::slots::{gave, given_of, none_given, same_id, took_back, Item, Slots, TaskId, MAX_ITEMS};
use crate::task::Task;

verus! {

/// The two ends of a doubly linked list of tasks.
#[derive(Clone, Copy)]
pub struct List {
    /// The first task.
    pub head: Option<TaskId>,
    /// The last task.
    pub tail: Option<TaskId>,
}

impl List {
    /// A list with no tasks.
    pub fn empty() -> (list: Self)
        ensures
            list.head is None,
            list.tail is None,
    {
        List { head: None, tail: None }
    }
}

/// What a queue holds: its items with their links, and the ends of its two lists.
#[verifier::ext_equal]
pub struct QueueView {
    pub items: Map<TaskId, Item>,
    pub hot: List,
    pub cold: List,
}

/// `list` with `key` put behind its last task.
pub open spec fn list_with_tail(list: List, key: TaskId) -> List {
    List {
        head: if list.head is None {
            Some(key)
        } else {
            list.head
        },
        tail: Some(key),
    }
}

/// `list` with its ends taken off `key`, whose own links are `prev` and `next`.
pub open spec fn list_without(
    list: List,
    key: TaskId,
    prev: Option<TaskId>,
    next: Option<TaskId>,
) -> List {
    List {
        head: if list.head == Some(key) {
            next
        } else {
            list.head
        },
        tail: if list.tail == Some(key) {
            prev
        } else {
            list.tail
        },
    }
}

/// `items` with the `next` link of the task `at`, if any, set to `next`.
pub open spec fn with_next(
    items: Map<TaskId, Item>,
    at: Option<TaskId>,
    next: Option<TaskId>,
) -> Map<TaskId, Item> {
    match at {
        Some(at) => items.insert(at, Item { next, ..items[at] }),
        None => items,
    }
}

/// `items` with the `prev` link of the task `at`, if any, set to `prev`.
pub open spec fn with_prev(
    items: Map<TaskId, Item>,
    at: Option<TaskId>,
    prev: Option<TaskId>,
) -> Map<TaskId, Item> {
    match at {
        Some(at) => items.insert(at, Item { prev, ..items[at] }),
        None => items,
    }
}

impl QueueView {
    /// A queue with nothing in it.
    pub open spec fn empty() -> QueueView {
        QueueView {
            items: Map::empty(),
            hot: List { head: None, tail: None },
            cold: List { head: None, tail: None },
        }
    }

    /// The hot list or the cold one.
    pub open spec fn list(self, is_hot: bool) -> List {
        if is_hot {
            self.hot
        } else {
            self.cold
        }
    }

    /// The queue with its items, and the hot list or the cold one, replaced.
    pub open spec fn with(self, items: Map<TaskId, Item>, is_hot: bool, list: List) -> QueueView {
        if is_hot {
            QueueView { items, hot: list, cold: self.cold }
        } else {
            QueueView { items, hot: self.hot, cold: list }
        }
    }

    /// Whether a link leads nowhere or to a task that is queued.
    pub open spec fn live(self, link: Option<TaskId>) -> bool {
        link matches Some(key) ==> self.items.contains_key(key)
    }

    /// Whether a task can be put behind the last one of a list.
    pub open spec fn can_link(self, is_hot: bool) -> bool {
        self.live(self.list(is_hot).tail)
    }

    /// Whether the task `key` can be taken out of its list.
    pub open spec fn can_unlink(self, key: TaskId) -> bool {
        self.live(self.items[key].prev) && self.live(self.items[key].next)
    }

    /// Puts `key` behind the last task of a list.
    pub open spec fn link_tail(self, key: TaskId, is_hot: bool) -> QueueView {
        let tail = self.list(is_hot).tail;
        let items = self.items.insert(
            key,
            Item { prev: tail, next: None, is_hot, ..self.items[key] },
        );
        self.with(
            with_next(items, tail, Some(key)),
            is_hot,
            list_with_tail(self.list(is_hot), key),
        )
    }

    /// Takes `key` out of a list: its neighbours are linked to each other. Its own links stay as
    /// they are.
    pub open spec fn unlink(self, key: TaskId, is_hot: bool) -> QueueView {
        let prev = self.items[key].prev;
        let next = self.items[key].next;
        self.with(
            with_prev(with_next(self.items, prev, next), next, prev),
            is_hot,
            list_without(self.list(is_hot), key, prev, next),
        )
    }

    /// Whether the task `key` can be made hot: a task that is queued and cold has to change
    /// lists.
    pub open spec fn can_make_hot(self, key: TaskId) -> bool {
        self.items.contains_key(key) && !self.items[key].is_hot ==> {
            &&& self.can_unlink(key)
            &&& self.can_link(true)
        }
    }

    /// Makes the task `key` hot. A cold task goes to the end of the hot list; a hot one, or one
    /// that is not queued, changes nothing.
    pub open spec fn make_hot(self, key: TaskId) -> QueueView {
        if self.items.contains_key(key) && !self.items[key].is_hot {
            self.unlink(key, false).link_tail(key, true)
        } else {
            self
        }
    }

    /// Whether every task can be made hot.
    pub open spec fn wakeable(self) -> bool {
        forall|key: TaskId| #[trigger] self.can_make_hot(key)
    }

    /// Makes tasks hot, one after the other.
    pub open spec fn make_all_hot(self, keys: Seq<TaskId>) -> QueueView
        decreases keys.len(),
    {
        if keys.len() == 0 {
            self
        } else {
            self.make_all_hot(keys.drop_last()).make_hot(keys.last())
        }
    }

    /// Whether the task `key` can be made cold.
    pub open spec fn can_make_cold(self, key: TaskId) -> bool {
        self.items.contains_key(key) ==> {
            &&& self.items[key].is_hot ==> self.can_unlink(key)
            &&& self.can_link(false)
        }
    }

    /// Makes the task `key` cold. A hot task goes to the end of the cold list. A cold one is put
    /// behind the last cold task without being taken out of the place that it had. One that is
    /// not queued changes nothing.
    pub open spec fn make_cold(self, key: TaskId) -> QueueView {
        if !self.items.contains_key(key) {
            self
        } else if self.items[key].is_hot {
            self.unlink(key, true).link_tail(key, false)
        } else {
            self.link_tail(key, false)
        }
    }

    /// Whether there is room for another task, and it can be put behind the last hot one.
    pub open spec fn can_push(self) -> bool {
        self.items.len() < MAX_ITEMS && self.can_link(true)
    }

    /// Adds a task under the name `key`, at the end of the hot list.
    pub open spec fn push_back(self, key: TaskId, value: Task) -> QueueView {
        QueueView {
            items: self.items.insert(key, Item { prev: None, next: None, value, is_hot: true }),
            ..self
        }.link_tail(key, true)
    }

    /// Whether the task `key` can be removed.
    pub open spec fn can_remove(self, key: TaskId) -> bool {
        self.items.contains_key(key) ==> self.can_unlink(key)
    }

    /// Removes the task `key`, if it is queued.
    pub open spec fn remove(self, key: TaskId) -> QueueView {
        if self.items.contains_key(key) {
            let unlinked = self.unlink(key, self.items[key].is_hot);
            QueueView { items: unlinked.items.remove(key), ..unlinked }
        } else {
            self
        }
    }

    /// The queue with another task under the name `key`, in the same place.
    pub open spec fn with_value(self, key: TaskId, value: Task) -> QueueView {
        QueueView { items: self.items.insert(key, Item { value, ..self.items[key] }), ..self }
    }

    /// The task behind `key` in its list, if both are there.
    pub open spec fn next(self, key: TaskId) -> Option<TaskId> {
        if self.items.contains_key(key) {
            self.items[key].next
        } else {
            None
        }
    }
}

/// A queue of tasks in two lists. The tasks of the hot list have been woken, those of the cold
/// list are waiting.
pub struct SlotQueue {
    map: Slots,
    hot: List,
    cold: List,
}

impl View for SlotQueue {
    type V = QueueView;

    closed spec fn view(&self) -> QueueView {
        QueueView { items: self.map@, hot: self.hot, cold: self.cold }
    }
}

/// Whether a link leads to `key`.
fn leads_to(link: Option<TaskId>, key: TaskId) -> (yes: bool)
    ensures
        yes == (link == Some(key)),
{
    match link {
        Some(id) => same_id(id, key),
        None => false,
    }
}

impl SlotQueue {
    /// The names that have been given to tasks so far, by slot: none of them is given to another
    /// task, until its slot has given out all that it has and starts over.
    pub closed spec fn given(self) -> Map<nat, Set<TaskId>> {
        given_of(self.map)
    }

    /// Puts `key`, which is in neither list, behind the last task of a list.
    fn link_tail(&mut self, key: TaskId, is_hot: bool)
        requires
            old(self)@.items.contains_key(key),
            old(self)@.can_link(is_hot),
        ensures
            final(self)@ == old(self)@.link_tail(key, is_hot),
            final(self).given() == old(self).given(),
    {
        let list: &mut List = if is_hot {
            &mut self.hot
        } else {
            &mut self.cold
        };
        let old_tail = list.tail;
        list.tail = Some(key);
        if list.head.is_none() {
            list.head = Some(key);
        }
        if let Some(item) = self.map.get_mut(key) {
            item.prev = old_tail;
            item.next = None;
            item.is_hot = is_hot;
        }
        if let Some(tail_key) = old_tail {
            if let Some(tail) = self.map.get_mut(tail_key) {
                tail.next = Some(key);
            }
        }
    }

    /// Takes `key` out of the list that it is in.
    fn unlink(&mut self, key: TaskId, is_hot: bool)
        requires
            old(self)@.items.contains_key(key),
            old(self)@.items[key].is_hot == is_hot,
            old(self)@.can_unlink(key),
        ensures
            final(self)@ == old(self)@.unlink(key, is_hot),
            final(self).given() == old(self).given(),
    {
        let (prev, next) = match self.map.get(key) {
            Some(item) => (item.prev, item.next),
            None => (None, None),
        };
        let list: &mut List = if is_hot {
            &mut self.hot
        } else {
            &mut self.cold
        };
        if leads_to(list.head, key) {
            list.head = next;
        }
        if leads_to(list.tail, key) {
            list.tail = prev;
        }
        if let Some(prev_key) = prev {
            if let Some(item) = self.map.get_mut(prev_key) {
                item.next = next;
            }
        }
        if let Some(next_key) = next {
            if let Some(item) = self.map.get_mut(next_key) {
                item.prev = prev;
            }
        }
    }

    /// An empty queue, with room for `size` tasks before it has to grow.
    pub fn new(size: usize) -> (queue: Self)
        requires
            size * 64 + 64 <= isize::MAX,
        ensures
            queue@ == QueueView::empty(),
            queue.given() == none_given(),
    {
        SlotQueue { map: Slots::with_capacity(size), hot: List::empty(), cold: List::empty() }
    }

    /// The number of tasks that are queued.
    pub fn len(&self) -> (len: usize)
        ensures
            len == self@.items.len(),
    {
        self.map.len()
    }

    /// Whether the task `key` is queued.
    pub fn contains(&self, key: TaskId) -> (yes: bool)
        ensures
            yes == self@.items.contains_key(key),
    {
        self.map.get(key).is_some()
    }

    /// The task `key`, if it is queued, to be changed in place.
    pub fn get(&mut self, key: TaskId) -> (value: Option<&mut Task>)
        ensures
            value is Some <==> old(self)@.items.contains_key(key),
            value matches Some(value) ==> {
                &&& *value == old(self)@.items[key].value
                &&& final(self)@ == old(self)@.with_value(key, *final(value))
            },
            value is None ==> final(self)@ == old(self)@,
            final(self).given() == old(self).given(),
    {
        match self.map.get_mut(key) {
            Some(item) => Some(&mut item.value),
            None => None,
        }
    }

    /// Adds the task that `value` returns for its name, at the end of the hot list.
    pub fn push_back_with<F: FnOnce(TaskId) -> Task>(&mut self, value: F) -> (key: TaskId)
        requires
            old(self)@.can_push(),
            forall|key: TaskId| call_requires(value, (key,)),
        ensures
            !old(self)@.items.contains_key(key),
            gave(old(self).given(), key, final(self).given()),
            exists|task: Task|
                call_ensures(value, (key,), task) && final(self)@ == old(self)@.push_back(
                    key,
                    task,
                ),
    {
        let make = |key: TaskId| -> (item: Item)
            requires
                call_requires(value, (key,)),
            ensures
                item.prev is None,
                item.next is None,
                item.is_hot,
                call_ensures(value, (key,), item.value),
            { Item { prev: None, next: None, value: value(key), is_hot: true } };
        let key = self.map.insert_with(make);
        let ghost task = self@.items[key].value;
        self.link_tail(key, true);
        assert(self@ == old(self)@.push_back(key, task));
        key
    }

    /// Makes the task `key` hot.
    pub fn make_hot(&mut self, key: TaskId)
        requires
            old(self)@.can_make_hot(key),
        ensures
            final(self)@ == old(self)@.make_hot(key),
            final(self).given() == old(self).given(),
    {
        let cold = match self.map.get(key) {
            Some(item) => !item.is_hot,
            None => {
                return ;
            },
        };
        if cold {
            self.unlink(key, false);
            self.link_tail(key, true);
        }
    }

    /// Makes the task `key` cold.
    pub fn make_cold(&mut self, key: TaskId)
        requires
            old(self)@.can_make_cold(key),
        ensures
            final(self)@ == old(self)@.make_cold(key),
            final(self).given() == old(self).given(),
    {
        let hot = match self.map.get(key) {
            Some(item) => item.is_hot,
            None => {
                return ;
            },
        };
        if hot {
            self.unlink(key, true);
        }
        self.link_tail(key, false);
    }

    /// The task behind `key` in its list.
    pub fn next(&self, key: TaskId) -> (next: Option<TaskId>)
        ensures
            next == self@.next(key),
    {
        match self.map.get(key) {
            Some(item) => item.next,
            None => None,
        }
    }

    /// The first task of the hot list.
    pub fn hot_head(&self) -> (head: Option<TaskId>)
        ensures
            head == self@.hot.head,
    {
        self.hot.head
    }

    /// The first task of the cold list.
    pub fn cold_head(&self) -> (head: Option<TaskId>)
        ensures
            head == self@.cold.head,
    {
        self.cold.head
    }

    /// Takes the task `key` out of the queue.
    pub fn remove(&mut self, key: TaskId) -> (value: Option<Task>)
        requires
            old(self)@.can_remove(key),
        ensures
            value == (if old(self)@.items.contains_key(key) {
                Some(old(self)@.items[key].value)
            } else {
                None
            }),
            final(self)@ == old(self)@.remove(key),
            old(self)@.items.contains_key(key) ==> took_back(
                old(self).given(),
                key,
                final(self).given(),
            ),
            !old(self)@.items.contains_key(key) ==> final(self).given() == old(self).given(),
    {
        let is_hot = match self.map.get(key) {
            Some(item) => item.is_hot,
            None => {
                return None;
            },
        };
        self.unlink(key, is_hot);
        match self.map.remove(key) {
            Some(item) => Some(item.value),
            None => None,
        }
    }

    /// Whether the task `key`, if it is queued, holds something to poll.
    pub fn is_idle(&self, key: TaskId) -> (idle: bool)
        ensures
            idle == (self@.items.contains_key(key) ==> self@.items[key].value.poll is Some),
    {
        match self.map.get(key) {
            Some(item) => item.value.poll.is_some(),
            None => true,
        }
    }

    /// Whether a link leads nowhere or to a task that is queued.
    fn live(&self, link: Option<TaskId>) -> (live: bool)
        ensures
            live == self@.live(link),
    {
        match link {
            Some(key) => self.contains(key),
            None => true,
        }
    }

    /// Whether [`SlotQueue::push_back_with`] may be called.
    pub fn can_push(&self) -> (yes: bool)
        ensures
            yes == self@.can_push(),
    {
        self.len() < MAX_ITEMS && self.live(self.hot.tail)
    }

    /// Whether [`SlotQueue::make_hot`] may be called with `key`.
    pub fn can_make_hot(&self, key: TaskId) -> (yes: bool)
        ensures
            yes == self@.can_make_hot(key),
    {
        match self.map.get(key) {
            Some(item) => item.is_hot || self.live(item.prev) && self.live(item.next) && self.live(
                self.hot.tail,
            ),
            None => true,
        }
    }

    /// Whether [`SlotQueue::make_cold`] may be called with `key`.
    pub fn can_make_cold(&self, key: TaskId) -> (yes: bool)
        ensures
            yes == self@.can_make_cold(key),
    {
        match self.map.get(key) {
            Some(item) => (!item.is_hot || self.live(item.prev) && self.live(item.next))
                && self.live(self.cold.tail),
            None => true,
        }
    }

    /// Whether [`SlotQueue::remove`] may be called with `key`.
    pub fn can_remove(&self, key: TaskId) -> (yes: bool)
        ensures
            yes == self@.can_remove(key),
    {
        match self.map.get(key) {
            Some(item) => self.live(item.prev) && self.live(item.next),
            None => true,
        }
    }

    /// Whether [`SlotQueue::make_hot`] may be called with any name.
    pub fn wakeable(&self) -> (yes: bool)
        ensures
            yes == self@.wakeable(),
    {
        let keys = self.map.keys();
        let mut i: usize = 0;
        while i < keys.len()
            invariant
                i <= keys.len(),
                forall|j: int| 0 <= j < i ==> self@.can_make_hot(#[trigger] keys@[j]),
                forall|id: TaskId| keys@.contains(id) <==> self@.items.contains_key(id),
            decreases keys.len() - i,
        {
            if !self.can_make_hot(keys[i]) {
                return false;
            }
            i += 1;
        }
        assert forall|key: TaskId| #[trigger] self@.can_make_hot(key) by {
            if self@.items.contains_key(key) {
                assert(keys@.contains(key));
                let j = choose|j: int| 0 <= j < keys@.len() && keys@[j] == key;
                assert(self@.can_make_hot(keys@[j]));
            }
        }
        true
    }
}

} // verus!
