//! What the links of a queue spell out, and what the operations of the queue do to it.
use vstd::prelude::*;

use crate::slot_queue::QueueView;
use crate::slots::{
    gave, given_by, gives, takes_back, took_back, was_given, Item, TaskId, MAX_GENERATIONS,
};
use crate::task::Task;

verus! {

/// The first of some tasks.
pub open spec fn first_of(s: Seq<TaskId>) -> Option<TaskId> {
    if s.len() == 0 {
        None
    } else {
        Some(s[0])
    }
}

/// The last of some tasks.
pub open spec fn last_of(s: Seq<TaskId>) -> Option<TaskId> {
    if s.len() == 0 {
        None
    } else {
        Some(s[s.len() - 1])
    }
}

/// The task in front of the one at position `i`.
pub open spec fn before(s: Seq<TaskId>, i: int) -> Option<TaskId> {
    if i <= 0 {
        None
    } else {
        Some(s[i - 1])
    }
}

/// The task behind the one at position `i`.
pub open spec fn after(s: Seq<TaskId>, i: int) -> Option<TaskId> {
    if i + 1 >= s.len() {
        None
    } else {
        Some(s[i + 1])
    }
}

/// Whether the task at position `i` of `s` is queued in a list, with its neighbours in `s` for its
/// neighbours.
pub open spec fn placed(v: QueueView, s: Seq<TaskId>, is_hot: bool, i: int) -> bool {
    &&& v.items.contains_key(s[i])
    &&& v.items[s[i]].is_hot == is_hot
    &&& v.items[s[i]].prev == before(s, i)
    &&& v.items[s[i]].next == after(s, i)
}

/// Whether a list of the queue consists of the tasks `s`, in that order.
pub open spec fn chain(v: QueueView, s: Seq<TaskId>, is_hot: bool) -> bool {
    &&& s.no_duplicates()
    &&& v.list(is_hot).head == first_of(s)
    &&& v.list(is_hot).tail == last_of(s)
    &&& forall|i: int|
        0 <= i < s.len() ==> #[trigger] placed(v, s, is_hot, i)
}

/// Whether the hot list of the queue consists of the tasks `hot`, its cold list of the tasks
/// `cold`, and nothing else is queued.
pub open spec fn lists(v: QueueView, hot: Seq<TaskId>, cold: Seq<TaskId>) -> bool {
    &&& chain(v, hot, true)
    &&& chain(v, cold, false)
    &&& forall|k: TaskId| #[trigger]
        v.items.contains_key(k) ==> if v.items[k].is_hot {
            hot.contains(k)
        } else {
            cold.contains(k)
        }
}

/// The tasks `s` without `key`.
pub open spec fn without(s: Seq<TaskId>, key: TaskId) -> Seq<TaskId> {
    if s.contains(key) {
        s.remove(s.index_of(key))
    } else {
        s
    }
}

/// `without` takes out `key` and nothing else.
pub proof fn lemma_without(s: Seq<TaskId>, key: TaskId)
    requires
        s.no_duplicates(),
    ensures
        without(s, key).no_duplicates(),
        forall|k: TaskId| #[trigger]
            without(s, key).contains(k) <==> s.contains(k) && k != key,
{
    let w = without(s, key);
    if s.contains(key) {
        let i = s.index_of(key);
        assert forall|k: TaskId| s.contains(k) && k != key implies #[trigger] w.contains(k) by {
            let j = s.index_of(k);
            assert(w[if j < i {
                j
            } else {
                j - 1
            }] == k);
        }
        assert forall|k: TaskId| #[trigger] w.contains(k) implies s.contains(k) && k != key by {
            let j = w.index_of(k);
            assert(s[if j < i {
                j
            } else {
                j + 1
            }] == k);
        }
    }
}

/// A task of one list is not in the other.
pub proof fn lemma_apart(v: QueueView, s: Seq<TaskId>, is_hot: bool, key: TaskId)
    requires
        chain(v, s, is_hot),
        v.items[key].is_hot != is_hot,
    ensures
        !s.contains(key),
{
    if s.contains(key) {
        lemma_queued(v, s, is_hot, key);
    }
}

/// A task of a list is queued.
pub proof fn lemma_queued(v: QueueView, s: Seq<TaskId>, is_hot: bool, key: TaskId)
    requires
        chain(v, s, is_hot),
        s.contains(key),
    ensures
        v.items.contains_key(key),
        v.items[key].is_hot == is_hot,
{
    assert(placed(v, s, is_hot, s.index_of(key)));
}

/// What taking a task out of its list does to the item under the name `k`.
proof fn lemma_unlinked_item(v: QueueView, key: TaskId, is_hot: bool, k: TaskId)
    requires
        v.can_unlink(key),
    ensures
        v.unlink(key, is_hot).items.dom() == v.items.dom(),
        v.unlink(key, is_hot).items[k].value == v.items[k].value,
        v.unlink(key, is_hot).items[k].is_hot == v.items[k].is_hot,
        v.unlink(key, is_hot).items[k].next == (if v.items[key].prev == Some(k) {
            v.items[key].next
        } else {
            v.items[k].next
        }),
        v.unlink(key, is_hot).items[k].prev == (if v.items[key].next == Some(k) {
            v.items[key].prev
        } else {
            v.items[k].prev
        }),
{
    assert(v.unlink(key, is_hot).items.dom() =~= v.items.dom());
}

/// The neighbours of the tasks that are left when the one at position `i` is taken out.
proof fn lemma_neighbours(s: Seq<TaskId>, i: int, k: int)
    requires
        0 <= i < s.len(),
        0 <= k < s.len(),
        k != i,
    ensures
        ({
            let w = s.remove(i);
            let j = if k < i {
                k
            } else {
                k - 1
            };
            &&& 0 <= j < w.len()
            &&& w[j] == s[k]
            &&& before(w, j) == (if k == i + 1 {
                before(s, i)
            } else {
                before(s, k)
            })
            &&& after(w, j) == (if k == i - 1 {
                after(s, i)
            } else {
                after(s, k)
            })
        }),
{
}

/// The list that a task is taken out of becomes shorter by it.
proof fn lemma_unlink_own(v: QueueView, s: Seq<TaskId>, key: TaskId, is_hot: bool)
    requires
        chain(v, s, is_hot),
        s.contains(key),
    ensures
        v.can_unlink(key),
        chain(v.unlink(key, is_hot), without(s, key), is_hot),
{
    let i = s.index_of(key);
    let w = s.remove(i);
    let u = v.unlink(key, is_hot);
    assert(placed(v, s, is_hot, i));
    if 0 < i {
        assert(placed(v, s, is_hot, i - 1));
    }
    if i + 1 < s.len() {
        assert(placed(v, s, is_hot, i + 1));
    }
    lemma_without(s, key);
    assert(u.list(is_hot).head == first_of(w)) by {
        if 0 < i {
            assert(s[0] != s[i]);
        }
    }
    assert(u.list(is_hot).tail == last_of(w)) by {
        if i + 1 < s.len() {
            assert(s[s.len() - 1] != s[i]);
        }
    }
    assert forall|j: int| 0 <= j < w.len() implies #[trigger] placed(u, w, is_hot, j) by {
        lemma_unlinked_at(v, s, key, is_hot, if j < i {
            j
        } else {
            j + 1
        });
    }
}

/// The place of a task that is left when another one is taken out of the list.
proof fn lemma_unlinked_at(v: QueueView, s: Seq<TaskId>, key: TaskId, is_hot: bool, k: int)
    requires
        chain(v, s, is_hot),
        s.contains(key),
        v.can_unlink(key),
        0 <= k < s.len(),
        k != s.index_of(key),
    ensures
        placed(v.unlink(key, is_hot), s.remove(s.index_of(key)), is_hot, if k < s.index_of(key) {
            k
        } else {
            k - 1
        }),
{
    let i = s.index_of(key);
    assert(placed(v, s, is_hot, i));
    assert(placed(v, s, is_hot, k));
    lemma_neighbours(s, i, k);
    lemma_unlinked_item(v, key, is_hot, s[k]);
    assert((before(s, i) == Some(s[k])) == (k == i - 1)) by {
        if i > 0 && k != i - 1 {
            assert(s[i - 1] != s[k]);
        }
    }
    assert((after(s, i) == Some(s[k])) == (k == i + 1)) by {
        if i + 1 < s.len() && k != i + 1 {
            assert(s[i + 1] != s[k]);
        }
    }
}

/// Taking a task out of its list shortens that list and leaves the other one as it is.
proof fn lemma_unlink(
    v: QueueView,
    s: Seq<TaskId>,
    other: Seq<TaskId>,
    key: TaskId,
    is_hot: bool,
    other_hot: bool,
)
    requires
        other_hot != is_hot,
        chain(v, s, is_hot),
        chain(v, other, other_hot),
        s.contains(key),
    ensures
        v.can_unlink(key),
        chain(v.unlink(key, is_hot), without(s, key), is_hot),
        chain(v.unlink(key, is_hot), other, other_hot),
        v.unlink(key, is_hot).items.dom() == v.items.dom(),
        v.unlink(key, is_hot).items[key].is_hot == is_hot,
        v.unlink(key, is_hot).items[key].value == v.items[key].value,
        forall|k: TaskId| #[trigger]
            v.items.contains_key(k) ==> v.unlink(key, is_hot).items[k].is_hot
                == v.items[k].is_hot,
{
    let i = s.index_of(key);
    let u = v.unlink(key, is_hot);
    lemma_unlink_own(v, s, key, is_hot);
    assert(placed(v, s, is_hot, i));
    if 0 < i {
        assert(placed(v, s, is_hot, i - 1));
    }
    if i + 1 < s.len() {
        assert(placed(v, s, is_hot, i + 1));
    }
    lemma_unlinked_item(v, key, is_hot, key);
    assert forall|j: int| 0 <= j < other.len() implies #[trigger] placed(
        u,
        other,
        other_hot,
        j,
    ) by {
        assert(placed(v, other, other_hot, j));
        lemma_unlinked_item(v, key, is_hot, other[j]);
    }
    assert forall|k: TaskId| #[trigger] v.items.contains_key(k) implies u.items[k].is_hot
        == v.items[k].is_hot by {
        lemma_unlinked_item(v, key, is_hot, k);
    }
}

/// Putting a task that is in neither list behind the last one of a list adds it to that list and
/// leaves the other one as it is.
proof fn lemma_link_tail(
    v: QueueView,
    s: Seq<TaskId>,
    other: Seq<TaskId>,
    key: TaskId,
    is_hot: bool,
    other_hot: bool,
)
    requires
        other_hot != is_hot,
        chain(v, s, is_hot),
        chain(v, other, other_hot),
        v.items.contains_key(key),
        !s.contains(key),
        !other.contains(key),
    ensures
        v.can_link(is_hot),
        chain(v.link_tail(key, is_hot), s.push(key), is_hot),
        chain(v.link_tail(key, is_hot), other, other_hot),
        v.link_tail(key, is_hot).items.dom() == v.items.dom(),
        v.link_tail(key, is_hot).items[key].is_hot == is_hot,
        v.link_tail(key, is_hot).items[key].value == v.items[key].value,
        forall|k: TaskId| #[trigger]
            v.items.contains_key(k) && k != key ==> v.link_tail(key, is_hot).items[k].is_hot
                == v.items[k].is_hot,
{
    let p = s.push(key);
    let u = v.link_tail(key, is_hot);
    if s.len() > 0 {
        let n = s.len() - 1;
        assert(placed(v, s, is_hot, n));
    }
    assert(u.items.dom() =~= v.items.dom());
    assert forall|a: int, b: int| 0 <= a < p.len() && 0 <= b < p.len() && a != b implies p[a]
        != p[b] by {
        if a == s.len() {
            assert(s.contains(p[b]));
        } else if b == s.len() {
            assert(s.contains(p[a]));
        }
    }
    assert forall|j: int| 0 <= j < p.len() implies #[trigger] placed(u, p, is_hot, j) by {
        if j < s.len() {
            assert(placed(v, s, is_hot, j));
            assert(s.contains(s[j]));
        }
    }
    assert forall|j: int| 0 <= j < other.len() implies #[trigger] placed(
        u,
        other,
        other_hot,
        j,
    ) by {
        assert(placed(v, other, other_hot, j));
        assert(other.contains(other[j]));
    }
}

/// A new queue has two empty lists.
pub proof fn law_empty()
    ensures
        lists(QueueView::empty(), Seq::empty(), Seq::empty()),
{
}

/// The links of a queue leave no choice of what its lists are.
pub proof fn law_lists_are_unique(
    v: QueueView,
    hot: Seq<TaskId>,
    cold: Seq<TaskId>,
    hot2: Seq<TaskId>,
    cold2: Seq<TaskId>,
)
    requires
        lists(v, hot, cold),
        lists(v, hot2, cold2),
    ensures
        hot == hot2,
        cold == cold2,
{
    lemma_chain_is_unique(v, hot, hot2, true);
    lemma_chain_is_unique(v, cold, cold2, false);
}

/// Two ways to spell out one list agree as far as both go.
proof fn lemma_chain_prefix(v: QueueView, a: Seq<TaskId>, b: Seq<TaskId>, is_hot: bool, n: int)
    requires
        chain(v, a, is_hot),
        chain(v, b, is_hot),
        0 <= n <= a.len(),
    ensures
        n <= b.len(),
        a.take(n) == b.take(n),
    decreases n,
{
    if n > 0 {
        lemma_chain_prefix(v, a, b, is_hot, n - 1);
        if n > 1 {
            assert(a.take(n - 1)[n - 2] == b.take(n - 1)[n - 2]);
            assert(placed(v, a, is_hot, n - 2));
            assert(placed(v, b, is_hot, n - 2));
        }
        assert(a[n - 1] == b[n - 1]);
        assert(a.take(n) =~= a.take(n - 1).push(a[n - 1]));
        assert(b.take(n) =~= b.take(n - 1).push(b[n - 1]));
    }
}

/// A list can be spelled out in one way only.
proof fn lemma_chain_is_unique(v: QueueView, a: Seq<TaskId>, b: Seq<TaskId>, is_hot: bool)
    requires
        chain(v, a, is_hot),
        chain(v, b, is_hot),
    ensures
        a == b,
{
    lemma_chain_prefix(v, a, b, is_hot, a.len() as int);
    lemma_chain_prefix(v, b, a, is_hot, b.len() as int);
    assert(a.take(a.len() as int) =~= a);
    assert(b.take(b.len() as int) =~= b);
}

/// In a queue whose links spell out two lists, every operation but an addition to a full queue
/// can be carried out.
pub proof fn law_operations_are_possible(
    v: QueueView,
    hot: Seq<TaskId>,
    cold: Seq<TaskId>,
    key: TaskId,
)
    requires
        lists(v, hot, cold),
    ensures
        v.can_make_hot(key),
        v.can_make_cold(key),
        v.can_remove(key),
        v.can_link(true),
        v.can_link(false),
        v.wakeable(),
{
    assert(v.can_link(true) && v.can_link(false)) by {
        if hot.len() > 0 {
            let n = hot.len() - 1;
            assert(placed(v, hot, true, n));
        }
        if cold.len() > 0 {
            let n = cold.len() - 1;
            assert(placed(v, cold, false, n));
        }
    }
    assert forall|k: TaskId| #[trigger] v.items.contains_key(k) implies v.can_unlink(k) by {
        if v.items[k].is_hot {
            lemma_unlink(v, hot, cold, k, true, false);
        } else {
            lemma_unlink(v, cold, hot, k, false, true);
        }
    }
    assert forall|k: TaskId| #[trigger] v.can_make_hot(k) by {
        assert(v.items.contains_key(k) ==> v.can_unlink(k));
    }
    assert(v.items.contains_key(key) ==> v.can_unlink(key));
}

/// A task that is added comes last in the hot list.
pub proof fn law_push_back(
    v: QueueView,
    hot: Seq<TaskId>,
    cold: Seq<TaskId>,
    key: TaskId,
    value: Task,
)
    requires
        lists(v, hot, cold),
        !v.items.contains_key(key),
    ensures
        lists(v.push_back(key, value), hot.push(key), cold),
        v.push_back(key, value).items[key].value == value,
{
    let item = Item { prev: None, next: None, value, is_hot: true };
    let u = QueueView { items: v.items.insert(key, item), ..v };
    assert forall|i: int| 0 <= i < hot.len() implies #[trigger] placed(u, hot, true, i) by {
        assert(placed(v, hot, true, i));
    }
    assert forall|i: int| 0 <= i < cold.len() implies #[trigger] placed(u, cold, false, i) by {
        assert(placed(v, cold, false, i));
    }
    if hot.contains(key) {
        lemma_queued(v, hot, true, key);
    }
    if cold.contains(key) {
        lemma_queued(v, cold, false, key);
    }
    lemma_link_tail(u, hot, cold, key, true, false);
    let w = v.push_back(key, value);
    assert(w == u.link_tail(key, true));
    assert(hot.push(key)[hot.len() as int] == key);
    assert forall|k: TaskId| #[trigger] w.items.contains_key(k) implies if w.items[k].is_hot {
        hot.push(key).contains(k)
    } else {
        cold.contains(k)
    } by {
        if k != key {
            assert(v.items.contains_key(k));
            assert(u.items.contains_key(k));
            if v.items[k].is_hot {
                assert(hot.push(key)[hot.index_of(k)] == k);
            }
        }
    }
}

/// A cold task that is made hot leaves the cold list and comes last in the hot one. Any other
/// name leaves both lists as they are.
pub proof fn law_make_hot(v: QueueView, hot: Seq<TaskId>, cold: Seq<TaskId>, key: TaskId)
    requires
        lists(v, hot, cold),
    ensures
        lists(
            v.make_hot(key),
            if cold.contains(key) {
                hot.push(key)
            } else {
                hot
            },
            without(cold, key),
        ),
{
    if v.items.contains_key(key) && !v.items[key].is_hot {
        lemma_move(v, cold, hot, key, false, true);
    } else if cold.contains(key) {
        lemma_queued(v, cold, false, key);
    }
}

/// A hot task that is made cold leaves the hot list and comes last in the cold one. A name that
/// is not queued leaves both lists as they are.
pub proof fn law_make_cold(v: QueueView, hot: Seq<TaskId>, cold: Seq<TaskId>, key: TaskId)
    requires
        lists(v, hot, cold),
        !cold.contains(key),
    ensures
        lists(
            v.make_cold(key),
            without(hot, key),
            if hot.contains(key) {
                cold.push(key)
            } else {
                cold
            },
        ),
{
    if v.items.contains_key(key) {
        lemma_move(v, hot, cold, key, true, false);
    } else if hot.contains(key) {
        lemma_queued(v, hot, true, key);
    }
}

/// Moving a task from one list to the end of the other.
proof fn lemma_move(
    v: QueueView,
    from: Seq<TaskId>,
    to: Seq<TaskId>,
    key: TaskId,
    from_hot: bool,
    to_hot: bool,
)
    requires
        to_hot != from_hot,
        chain(v, from, from_hot),
        chain(v, to, to_hot),
        v.items.contains_key(key),
        v.items[key].is_hot == from_hot,
        forall|k: TaskId| #[trigger]
            v.items.contains_key(k) ==> if v.items[k].is_hot == from_hot {
                from.contains(k)
            } else {
                to.contains(k)
            },
    ensures
        ({
            let w = v.unlink(key, from_hot).link_tail(key, to_hot);
            &&& from.contains(key)
            &&& chain(w, without(from, key), from_hot)
            &&& chain(w, to.push(key), to_hot)
            &&& w.items.dom() == v.items.dom()
            &&& w.items[key].value == v.items[key].value
            &&& forall|k: TaskId| #[trigger]
                w.items.contains_key(k) ==> if w.items[k].is_hot == from_hot {
                    without(from, key).contains(k)
                } else {
                    to.push(key).contains(k)
                }
        }),
{
    lemma_without(from, key);
    lemma_apart(v, to, to_hot, key);
    lemma_unlink(v, from, to, key, from_hot, to_hot);
    let u = v.unlink(key, from_hot);
    lemma_link_tail(u, to, without(from, key), key, to_hot, from_hot);
    let w = u.link_tail(key, to_hot);
    assert(to.push(key)[to.len() as int] == key);
    assert forall|k: TaskId| #[trigger] w.items.contains_key(k) implies if w.items[k].is_hot
        == from_hot {
        without(from, key).contains(k)
    } else {
        to.push(key).contains(k)
    } by {
        assert(v.items.contains_key(k));
        assert(u.items.contains_key(k));
        if k != key {
            if v.items[k].is_hot != from_hot {
                assert(to.push(key)[to.index_of(k)] == k);
            }
        }
    }
}

/// A task that is removed leaves its list; the others keep their order.
pub proof fn law_remove(v: QueueView, hot: Seq<TaskId>, cold: Seq<TaskId>, key: TaskId)
    requires
        lists(v, hot, cold),
    ensures
        lists(v.remove(key), without(hot, key), without(cold, key)),
        !v.remove(key).items.contains_key(key),
{
    lemma_without(hot, key);
    lemma_without(cold, key);
    if v.items.contains_key(key) {
        let is_hot = v.items[key].is_hot;
        let other_hot = !is_hot;
        let (s, other) = if is_hot {
            (hot, cold)
        } else {
            (cold, hot)
        };
        lemma_apart(v, other, other_hot, key);
        lemma_unlink(v, s, other, key, is_hot, other_hot);
        let u = v.unlink(key, is_hot);
        let w = v.remove(key);
        let left = without(s, key);
        assert forall|i: int| 0 <= i < left.len() implies #[trigger] placed(w, left, is_hot, i) by {
            assert(placed(u, left, is_hot, i));
            assert(left.contains(left[i]));
        }
        assert forall|i: int| 0 <= i < other.len() implies #[trigger] placed(
            w,
            other,
            other_hot,
            i,
        ) by {
            assert(placed(u, other, other_hot, i));
            assert(other.contains(other[i]));
        }
        assert forall|k: TaskId| #[trigger] w.items.contains_key(k) implies if w.items[k].is_hot {
            without(hot, key).contains(k)
        } else {
            without(cold, key).contains(k)
        } by {
            assert(v.items.contains_key(k));
        }
    } else {
        if hot.contains(key) {
            lemma_queued(v, hot, true, key);
        }
        if cold.contains(key) {
            lemma_queued(v, cold, false, key);
        }
    }
}

/// Changing what is queued under a name leaves both lists as they are.
pub proof fn law_with_value(
    v: QueueView,
    hot: Seq<TaskId>,
    cold: Seq<TaskId>,
    key: TaskId,
    value: Task,
)
    requires
        lists(v, hot, cold),
        v.items.contains_key(key),
    ensures
        lists(v.with_value(key, value), hot, cold),
{
    let w = v.with_value(key, value);
    assert forall|i: int| 0 <= i < hot.len() implies #[trigger] placed(w, hot, true, i) by {
        assert(placed(v, hot, true, i));
    }
    assert forall|i: int| 0 <= i < cold.len() implies #[trigger] placed(w, cold, false, i) by {
        assert(placed(v, cold, false, i));
    }
    assert forall|k: TaskId| #[trigger] w.items.contains_key(k) implies if w.items[k].is_hot {
        hot.contains(k)
    } else {
        cold.contains(k)
    } by {
        assert(v.items.contains_key(k));
    }
}

/// Waking a task twice is waking it once.
pub proof fn law_make_hot_is_idempotent(v: QueueView, key: TaskId)
    requires
        v.can_make_hot(key),
    ensures
        v.make_hot(key).make_hot(key) == v.make_hot(key),
{
}

/// A cold task that is made cold again is the last cold task, but the others keep leading to the
/// place that it had: behind it comes itself if it was the last one, and nothing if it was not.
/// The hot list is left as it is, and every task can still be woken.
pub proof fn law_make_cold_again(v: QueueView, hot: Seq<TaskId>, cold: Seq<TaskId>, key: TaskId)
    requires
        lists(v, hot, cold),
        cold.contains(key),
    ensures
        chain(v.make_cold(key), hot, true),
        v.make_cold(key).items.dom() == v.items.dom(),
        v.make_cold(key).cold.head == v.cold.head,
        v.make_cold(key).cold.tail == Some(key),
        v.make_cold(key).next(key) == (if cold.last() == key {
            Some(key)
        } else {
            None
        }),
        v.make_cold(key).wakeable(),
{
    lemma_queued(v, cold, false, key);
    law_operations_are_possible(v, hot, cold, key);
    law_wakeable_is_kept(v, key, v.items[key].value);
    let w = v.make_cold(key);
    let n = cold.len() - 1;
    assert(placed(v, cold, false, n));
    assert(w.items.dom() =~= v.items.dom());
    assert forall|i: int| 0 <= i < hot.len() implies #[trigger] placed(w, hot, true, i) by {
        assert(placed(v, hot, true, i));
    }
}

/// As long as the last hot task is queued and every task can be woken, this stays so: whether a
/// task is added, woken, made to wait or changed.
pub proof fn law_wakeable_is_kept(v: QueueView, key: TaskId, value: Task)
    requires
        v.wakeable(),
        v.can_link(true),
    ensures
        v.make_hot(key).wakeable(),
        v.make_hot(key).can_link(true),
        v.can_make_cold(key) ==> v.make_cold(key).wakeable() && v.make_cold(key).can_link(true),
        !v.items.contains_key(key) ==> v.push_back(key, value).wakeable() && v.push_back(
            key,
            value,
        ).can_link(true),
        v.items.contains_key(key) ==> v.with_value(key, value).wakeable() && v.with_value(
            key,
            value,
        ).can_link(true),
{
    assert(v.can_make_hot(key));
    let w = v.make_hot(key);
    assert forall|k: TaskId| #[trigger] w.can_make_hot(k) by {
        assert(v.can_make_hot(k));
    }
    if v.can_make_cold(key) {
        let w = v.make_cold(key);
        assert forall|k: TaskId| #[trigger] w.can_make_hot(k) by {
            assert(v.can_make_hot(k));
        }
    }
    if v.items.contains_key(key) {
        let w = v.with_value(key, value);
        assert forall|k: TaskId| #[trigger] w.can_make_hot(k) by {
            assert(v.can_make_hot(k));
        }
    } else {
        let w = v.push_back(key, value);
        assert forall|k: TaskId| #[trigger] w.can_make_hot(k) by {
            assert(v.can_make_hot(k));
        }
    }
}

/// Waking tasks keeps every task of the queue in a state to be woken.
pub proof fn law_make_hot_keeps_wakeable(v: QueueView, key: TaskId)
    requires
        v.wakeable(),
    ensures
        v.make_hot(key).wakeable(),
{
    assert(v.can_make_hot(key));
    let w = v.make_hot(key);
    assert forall|k: TaskId| #[trigger] w.can_make_hot(k) by {
        assert(v.can_make_hot(k));
    }
}

/// The tasks `s` without any of `keys`.
pub open spec fn without_all(s: Seq<TaskId>, keys: Seq<TaskId>) -> Seq<TaskId>
    decreases keys.len(),
{
    if keys.len() == 0 {
        s
    } else {
        without(without_all(s, keys.drop_last()), keys.last())
    }
}

/// The tasks of `cold` that are woken when the tasks `keys` are woken one after the other: each of
/// them once, in the order in which they were first asked for.
pub open spec fn woken(cold: Seq<TaskId>, keys: Seq<TaskId>) -> Seq<TaskId>
    decreases keys.len(),
{
    if keys.len() == 0 {
        Seq::empty()
    } else {
        let before = woken(cold, keys.drop_last());
        if cold.contains(keys.last()) && !before.contains(keys.last()) {
            before.push(keys.last())
        } else {
            before
        }
    }
}

/// Whichever tasks are woken one after the other: the hot ones keep their places, and the cold ones
/// come behind them, each once, in the order in which they were first woken. Names that are not
/// queued make no difference.
pub proof fn law_wakeups_are_served_in_order(
    v: QueueView,
    hot: Seq<TaskId>,
    cold: Seq<TaskId>,
    keys: Seq<TaskId>,
)
    requires
        lists(v, hot, cold),
    ensures
        lists(
            v.make_all_hot(keys),
            hot + woken(cold, keys),
            without_all(cold, woken(cold, keys)),
        ),
        woken(cold, keys).no_duplicates(),
        forall|k: TaskId| #[trigger]
            woken(cold, keys).contains(k) <==> cold.contains(k) && keys.contains(k),
        forall|k: TaskId| #[trigger]
            without_all(cold, woken(cold, keys)).contains(k) <==> cold.contains(k)
                && !keys.contains(k),
    decreases keys.len(),
{
    if keys.len() == 0 {
        assert(hot + woken(cold, keys) =~= hot);
    } else {
        let init = keys.drop_last();
        let last = keys.last();
        let before = woken(cold, init);
        let rest = without_all(cold, before);
        law_wakeups_are_served_in_order(v, hot, cold, init);
        law_make_hot(v.make_all_hot(init), hot + before, rest, last);
        lemma_without(rest, last);
        assert forall|k: TaskId| #[trigger] keys.contains(k) <==> init.contains(k) || k == last by {
            if init.contains(k) {
                assert(keys[init.index_of(k)] == k);
            }
            if keys.contains(k) && k != last {
                assert(init[keys.index_of(k)] == k);
            }
            assert(keys[keys.len() - 1] == last);
        }
        if rest.contains(last) {
            assert(woken(cold, keys) == before.push(last));
            assert(before.push(last).drop_last() =~= before);
            assert((hot + before).push(last) =~= hot + before.push(last));
            assert forall|k: TaskId| #[trigger]
                before.push(last).contains(k) <==> before.contains(k) || k == last by {
                if before.contains(k) {
                    assert(before.push(last)[before.index_of(k)] == k);
                }
                assert(before.push(last)[before.len() as int] == last);
            }
        }
    }
}

/// Waking a task and letting it wait leave the same tasks queued, each with what it held.
pub proof fn law_tasks_are_kept(v: QueueView, key: TaskId, k: TaskId)
    requires
        v.can_make_hot(key),
        v.can_make_cold(key),
    ensures
        v.make_hot(key).items.dom() == v.items.dom(),
        v.make_hot(key).items[k].value == v.items[k].value,
        v.make_cold(key).items.dom() == v.items.dom(),
        v.make_cold(key).items[k].value == v.items[k].value,
{
    assert(v.make_hot(key).items.dom() =~= v.items.dom());
    assert(v.make_cold(key).items.dom() =~= v.items.dom());
}

/// Removing a task leaves the other ones queued, each with what it held.
pub proof fn law_other_tasks_are_kept(v: QueueView, key: TaskId, k: TaskId)
    requires
        v.can_remove(key),
        k != key,
    ensures
        v.remove(key).items.contains_key(k) == v.items.contains_key(k),
        v.remove(key).items[k].value == v.items[k].value,
        v.remove(key).items[k].is_hot == v.items[k].is_hot,
{
}

/// Whether the name `key` has been in use and is out of use. `given` are the names that have been
/// given to tasks.
pub open spec fn gone(v: QueueView, given: Map<nat, Set<TaskId>>, key: TaskId) -> bool {
    was_given(given, key) && !v.items.contains_key(key)
}

/// Whether the slot of the name `key` starts over when the name `removed` is taken back: it is the
/// slot of both, and `removed` was the last name that it had to give.
pub open spec fn starts_over(
    given: Map<nat, Set<TaskId>>,
    removed: TaskId,
    key: TaskId,
) -> bool {
    exists|i: nat|
        {
            &&& #[trigger] given_by(given, i).contains(key)
            &&& given_by(given, i).contains(removed)
            &&& given_by(given, i).len() >= MAX_GENERATIONS
        }
}

/// A task that is removed takes its name with it, and the name stays unknown: no later push,
/// wake-up, wait or removal brings it back, whichever task it is about. Only where the slot of the
/// name has given out all the names that it has, and starts over, may the name be given again.
///
/// `after` is what has been given out after the step, as [`crate::slot_queue::SlotQueue`] says of
/// its operations.
pub proof fn law_removed_names_stay_unknown(
    v: QueueView,
    given: Map<nat, Set<TaskId>>,
    key: TaskId,
    other: TaskId,
    task: Task,
    after: Map<nat, Set<TaskId>>,
)
    ensures
        v.can_remove(key) && took_back(given, key, after) && !starts_over(given, key, key)
            ==> gone(v.remove(key), after, key),
        gone(v, given, key) ==> {
            &&& v.can_push() && gave(given, other, after) ==> gone(
                v.push_back(other, task),
                after,
                key,
            )
            &&& v.can_make_hot(other) ==> gone(v.make_hot(other), given, key)
            &&& v.can_make_cold(other) ==> gone(v.make_cold(other), given, key)
            &&& v.can_remove(other) && took_back(given, other, after) && !starts_over(
                given,
                other,
                key,
            ) ==> gone(v.remove(other), after, key)
            &&& v.items.contains_key(other) ==> gone(v.with_value(other, task), given, key)
            &&& v.next(key) is None
            &&& v.remove(key) == v
        },
{
    if took_back(given, key, after) && !starts_over(given, key, key) {
        let i = choose|i: nat| #[trigger] takes_back(given, i, key, after);
        assert(given_by(after, i).contains(key));
    }
    if gone(v, given, key) {
        let k = choose|k: nat| #[trigger] given_by(given, k).contains(key);
        if gave(given, other, after) {
            let i = choose|i: nat| #[trigger] gives(given, i, other, after);
            assert(given_by(after, k).contains(key));
            assert(other != key);
        }
        if took_back(given, other, after) && !starts_over(given, other, key) {
            let i = choose|i: nat| #[trigger] takes_back(given, i, other, after);
            assert(given_by(after, k).contains(key));
        }
    }
}

} // verus!
