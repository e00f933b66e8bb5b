use slotmap::{DefaultKey, SlotMap};
use vstd::prelude::*;

use crate::task::Task;

verus! {

/// The key type of `slotmap`: an index and a generation, compared as a whole.
#[verifier::external_type_specification]
#[verifier::external_body]
pub struct ExDefaultKey(DefaultKey);

/// Names one spawned task. A name is not given to another task while its own is queued.
#[derive(Clone, Copy, Debug, PartialEq, Eq, Hash)]
pub struct TaskId {
    key: DefaultKey,
}

/// A queued task with its links.
pub struct Item {
    /// The task before it in its list.
    pub prev: Option<TaskId>,
    /// The task after it in its list.
    pub next: Option<TaskId>,
    /// The task itself.
    pub value: Task,
    /// Whether it belongs to the hot list.
    pub is_hot: bool,
}

/// The queued tasks by name, held in a `slotmap::SlotMap`.
#[verifier::external_body]
pub struct Slots {
    map: SlotMap<DefaultKey, Item>,
}

/// What a slot map holds.
pub uninterp spec fn items_of(slots: Slots) -> Map<TaskId, Item>;

/// The keys that each slot of a slot map has given out so far, by the index of the slot. The
/// generation of a slot counts them: a slot does not give a key out again, until it has gone
/// through all of its generations and starts over with none given out.
pub uninterp spec fn given_of(slots: Slots) -> Map<nat, Set<TaskId>>;

impl View for Slots {
    type V = Map<TaskId, Item>;

    open spec fn view(&self) -> Map<TaskId, Item> {
        items_of(*self)
    }
}

/// No items at all.
pub open spec fn no_items() -> Map<TaskId, Item> {
    Map::empty()
}

/// The largest number of tasks that a slot map can be filled up to.
pub const MAX_ITEMS: usize = 0xffff_fffe;

/// How many keys a slot gives out before it starts over.
pub const MAX_GENERATIONS: usize = 0x8000_0000;

/// No keys have been given out.
pub open spec fn none_given() -> Map<nat, Set<TaskId>> {
    Map::empty()
}

/// The keys that the slot `i` has given out.
pub open spec fn given_by(given: Map<nat, Set<TaskId>>, i: nat) -> Set<TaskId> {
    if given.contains_key(i) {
        given[i]
    } else {
        Set::empty()
    }
}

/// Whether some slot has given out the key.
pub open spec fn was_given(given: Map<nat, Set<TaskId>>, id: TaskId) -> bool {
    exists|i: nat| #[trigger] given_by(given, i).contains(id)
}

/// Whether `after` is what has been given out once the slot `i` has given out another key.
pub open spec fn gives(
    given: Map<nat, Set<TaskId>>,
    i: nat,
    id: TaskId,
    after: Map<nat, Set<TaskId>>,
) -> bool {
    after == given.insert(i, given_by(given, i).insert(id))
}

/// Whether `after` is what has been given out once the slot `i` has got back its key: the same, or
/// nothing by that slot, where it starts over.
pub open spec fn takes_back(
    given: Map<nat, Set<TaskId>>,
    i: nat,
    id: TaskId,
    after: Map<nat, Set<TaskId>>,
) -> bool {
    &&& given_by(given, i).contains(id)
    &&& after == (if given_by(given, i).len() < MAX_GENERATIONS {
        given
    } else {
        given.insert(i, Set::empty())
    })
}

/// Whether `after` is what has been given out once a key that had not been given out is.
pub open spec fn gave(
    given: Map<nat, Set<TaskId>>,
    id: TaskId,
    after: Map<nat, Set<TaskId>>,
) -> bool {
    &&& !was_given(given, id)
    &&& exists|i: nat| #[trigger] gives(given, i, id, after)
}

/// Whether `after` is what has been given out once a key that was in use is out of use.
pub open spec fn took_back(
    given: Map<nat, Set<TaskId>>,
    id: TaskId,
    after: Map<nat, Set<TaskId>>,
) -> bool {
    exists|i: nat| #[trigger] takes_back(given, i, id, after)
}

/// Calls `==` on two keys, which `slotmap` derives: it holds exactly when the keys are the same.
#[verifier::external_body]
pub(crate) fn same_id(a: TaskId, b: TaskId) -> (same: bool)
    ensures
        same == (a == b),
{
    a.key == b.key
}

impl Slots {
    /// Calls `SlotMap::with_capacity_and_key`: an empty map. The call allocates `capacity + 1`
    /// slots at once and panics where they take more bytes than an allocation may have; a slot
    /// takes no more than 64.
    #[verifier::external_body]
    pub(crate) fn with_capacity(capacity: usize) -> (slots: Self)
        requires
            capacity * 64 + 64 <= isize::MAX,
        ensures
            items_of(slots) == no_items(),
            given_of(slots) == none_given(),
    {
        Slots { map: SlotMap::with_capacity_and_key(capacity) }
    }

    /// Calls `SlotMap::get`: the item under the key, if there is one.
    #[verifier::external_body]
    pub(crate) fn get(&self, id: TaskId) -> (item: Option<&Item>)
        ensures
            item == (if items_of(*self).contains_key(id) {
                Some(&items_of(*self)[id])
            } else {
                None
            }),
    {
        self.map.get(id.key)
    }

    /// Calls `SlotMap::get_mut`: the item under the key, if there is one, to be changed in
    /// place.
    #[verifier::external_body]
    pub(crate) fn get_mut(&mut self, id: TaskId) -> (item: Option<&mut Item>)
        ensures
            item is Some <==> items_of(*old(self)).contains_key(id),
            item matches Some(item) ==> {
                &&& *item == items_of(*old(self))[id]
                &&& items_of(*final(self)) == items_of(*old(self)).insert(id, *final(item))
            },
            item is None ==> items_of(*final(self)) == items_of(*old(self)),
            given_of(*final(self)) == given_of(*old(self)),
    {
        self.map.get_mut(id.key)
    }

    /// Calls `SlotMap::insert_with_key`: adds what `make` returns for a key that is not in use and
    /// is the next one that its slot gives out, and returns that key. The call panics on a map that
    /// is full.
    #[verifier::external_body]
    pub(crate) fn insert_with<F: FnOnce(TaskId) -> Item>(&mut self, make: F) -> (id: TaskId)
        requires
            items_of(*old(self)).len() < MAX_ITEMS,
            forall|id: TaskId| call_requires(make, (id,)),
        ensures
            !items_of(*old(self)).contains_key(id),
            gave(given_of(*old(self)), id, given_of(*final(self))),
            items_of(*final(self)).contains_key(id),
            call_ensures(make, (id,), items_of(*final(self))[id]),
            items_of(*final(self)) == items_of(*old(self)).insert(id, items_of(*final(self))[id]),
    {
        TaskId { key: self.map.insert_with_key(|key| make(TaskId { key })) }
    }

    /// Calls `SlotMap::remove`: takes out the item under the key, if there is one. The slot goes on
    /// to its next generation, and starts over if this was its last one.
    #[verifier::external_body]
    pub(crate) fn remove(&mut self, id: TaskId) -> (item: Option<Item>)
        ensures
            item == (if items_of(*old(self)).contains_key(id) {
                Some(items_of(*old(self))[id])
            } else {
                None
            }),
            items_of(*final(self)) == items_of(*old(self)).remove(id),
            items_of(*old(self)).contains_key(id) ==> took_back(
                given_of(*old(self)),
                id,
                given_of(*final(self)),
            ),
            !items_of(*old(self)).contains_key(id) ==> given_of(*final(self)) == given_of(
                *old(self),
            ),
    {
        self.map.remove(id.key)
    }

    /// Calls `SlotMap::len`: the number of items.
    #[verifier::external_body]
    pub(crate) fn len(&self) -> (len: usize)
        ensures
            len == items_of(*self).len(),
    {
        self.map.len()
    }

    /// Calls `SlotMap::keys`: the keys in use, each of them once, in no order that is promised.
    #[verifier::external_body]
    pub(crate) fn keys(&self) -> (keys: Vec<TaskId>)
        ensures
            keys@.no_duplicates(),
            forall|id: TaskId| keys@.contains(id) <==> items_of(*self).contains_key(id),
    {
        self.map.keys().map(|key| TaskId { key }).collect()
    }
}

} // verus!
