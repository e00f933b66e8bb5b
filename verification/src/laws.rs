//! What the operations of a queue do to each single task: what it holds, which list it belongs to,
//! and where its links lead. These hold of every queue in which the operation can be carried out.
use vstd::prelude::*;

use crate::lists::{lists, placed, without, without_all, woken};
use crate::queue::Event;
use crate::slot_queue::QueueView;
use crate::slots::{TaskId, MAX_ITEMS};
use crate::task::{Pollable, Task};

verus! {

/// A new queue holds no tasks, and its lists have no ends.
pub proof fn law_a_new_queue_holds_nothing(k: TaskId)
    ensures
        !QueueView::empty().items.contains_key(k),
        QueueView::empty().items.len() == 0,
        QueueView::empty().hot.head is None,
        QueueView::empty().hot.tail is None,
        QueueView::empty().cold.head is None,
        QueueView::empty().cold.tail is None,
{
}

/// Whether an operation can be carried out is only a matter of links: those of the task that has to
/// leave a list, and the end of the list that a task has to be put to, lead nowhere or to a task
/// that is queued. A task can be added as long as there is room.
pub proof fn law_only_dead_links_are_in_the_way(v: QueueView, key: TaskId)
    ensures
        ({
            let unlinks = {
                &&& v.items[key].prev matches Some(k) ==> v.items.contains_key(k)
                &&& v.items[key].next matches Some(k) ==> v.items.contains_key(k)
            };
            let links_hot = v.hot.tail matches Some(k) ==> v.items.contains_key(k);
            let links_cold = v.cold.tail matches Some(k) ==> v.items.contains_key(k);
            let queued = v.items.contains_key(key);
            let is_hot = v.items[key].is_hot;
            &&& v.can_make_hot(key) <==> (queued && !is_hot ==> unlinks && links_hot)
            &&& v.can_make_cold(key) <==> (queued ==> (is_hot ==> unlinks) && links_cold)
            &&& v.can_remove(key) <==> (queued ==> unlinks)
            &&& v.can_push() <==> v.items.len() < MAX_ITEMS && links_hot
            &&& v.can_run(key) <==> v.can_make_cold(key) && (queued
                ==> v.items[key].value.poll is Some)
            &&& v.can_settle(key, true) <==> queued
            &&& v.can_settle(key, false) <==> v.can_remove(key)
        }),
        v.wakeable() <==> (forall|k: TaskId| #[trigger] v.can_make_hot(k)),
{
}

/// Adding a task changes nothing about the others but that the one that was last in the hot list
/// leads on to it. The added task is hot, holds what it was made with, and is the last hot one.
pub proof fn law_adding_leaves_the_others(v: QueueView, key: TaskId, value: Task, k: TaskId)
    requires
        v.can_push(),
        !v.items.contains_key(key),
    ensures
        ({
            let w = v.push_back(key, value);
            &&& w.items.contains_key(k) <==> v.items.contains_key(k) || k == key
            &&& v.items.dom().finite() ==> w.items.len() == v.items.len() + 1
            &&& w.items[key].value == value
            &&& w.items[key].is_hot
            &&& w.items[key].prev == v.hot.tail
            &&& w.items[key].next is None
            &&& v.items.contains_key(k) ==> {
                &&& w.items[k].value == v.items[k].value
                &&& w.items[k].is_hot == v.items[k].is_hot
                &&& w.items[k].prev == v.items[k].prev
                &&& w.items[k].next == (if v.hot.tail == Some(k) {
                    Some(key)
                } else {
                    v.items[k].next
                })
            }
            &&& w.hot.head == (if v.hot.head is None {
                Some(key)
            } else {
                v.hot.head
            })
            &&& w.hot.tail == Some(key)
            &&& w.cold == v.cold
        }),
{
    let w = v.push_back(key, value);
    assert(w.items.dom() =~= v.items.dom().insert(key));
}

/// Waking a task makes it hot if it is queued, and leaves every task what it holds and every other
/// one in its list. A task that was cold comes behind the last hot one, and those around its old
/// place are linked to each other. A task that is hot already, or not queued, changes nothing.
pub proof fn law_waking_makes_hot(v: QueueView, key: TaskId, k: TaskId)
    requires
        v.can_make_hot(key),
    ensures
        ({
            let w = v.make_hot(key);
            &&& w.items.contains_key(k) <==> v.items.contains_key(k)
            &&& w.items[k].value == v.items[k].value
            &&& v.items.contains_key(k) ==> w.items[k].is_hot == (v.items[k].is_hot || k == key)
            &&& !v.items.contains_key(key) || v.items[key].is_hot ==> w == v
            &&& v.items.contains_key(key) && !v.items[key].is_hot ==> {
                let prev = v.items[key].prev;
                let next = v.items[key].next;
                &&& w.hot.tail == Some(key)
                &&& w.hot.head == (if v.hot.head is None {
                    Some(key)
                } else {
                    v.hot.head
                })
                &&& w.cold.head == (if v.cold.head == Some(key) {
                    next
                } else {
                    v.cold.head
                })
                &&& w.cold.tail == (if v.cold.tail == Some(key) {
                    prev
                } else {
                    v.cold.tail
                })
                &&& w.items[k].next == (if v.hot.tail == Some(k) {
                    Some(key)
                } else if k == key {
                    None
                } else if prev == Some(k) {
                    next
                } else {
                    v.items[k].next
                })
                &&& w.items[k].prev == (if k == key {
                    v.hot.tail
                } else if next == Some(k) {
                    prev
                } else {
                    v.items[k].prev
                })
            }
        }),
{
}

/// Letting a task wait makes it cold if it is queued, and leaves every task what it holds and every
/// other one in its list. It comes behind the last cold one. If it was hot, those around its old
/// place are linked to each other; if it was cold already, they are left as they are. A name that
/// is not queued changes nothing.
pub proof fn law_waiting_makes_cold(v: QueueView, key: TaskId, k: TaskId)
    requires
        v.can_make_cold(key),
    ensures
        ({
            let w = v.make_cold(key);
            &&& w.items.contains_key(k) <==> v.items.contains_key(k)
            &&& w.items[k].value == v.items[k].value
            &&& v.items.contains_key(k) ==> w.items[k].is_hot == (v.items[k].is_hot && k != key)
            &&& !v.items.contains_key(key) ==> w == v
            &&& v.items.contains_key(key) ==> {
                let was_hot = v.items[key].is_hot;
                let prev = v.items[key].prev;
                let next = v.items[key].next;
                &&& w.cold.tail == Some(key)
                &&& w.cold.head == (if v.cold.head is None {
                    Some(key)
                } else {
                    v.cold.head
                })
                &&& w.hot.head == (if was_hot && v.hot.head == Some(key) {
                    next
                } else {
                    v.hot.head
                })
                &&& w.hot.tail == (if was_hot && v.hot.tail == Some(key) {
                    prev
                } else {
                    v.hot.tail
                })
                &&& w.items[k].next == (if v.cold.tail == Some(k) {
                    Some(key)
                } else if k == key {
                    None
                } else if was_hot && prev == Some(k) {
                    next
                } else {
                    v.items[k].next
                })
                &&& w.items[k].prev == (if k == key {
                    v.cold.tail
                } else if was_hot && next == Some(k) {
                    prev
                } else {
                    v.items[k].prev
                })
            }
        }),
{
}

/// Removing a task takes it out and nothing else: every other one keeps what it holds and its list,
/// and those around its place are linked to each other. A name that is not queued changes nothing.
pub proof fn law_removing_takes_out_one(v: QueueView, key: TaskId, k: TaskId)
    requires
        v.can_remove(key),
    ensures
        ({
            let w = v.remove(key);
            &&& w.items.contains_key(k) <==> v.items.contains_key(k) && k != key
            &&& k != key ==> {
                &&& w.items[k].value == v.items[k].value
                &&& w.items[k].is_hot == v.items[k].is_hot
            }
            &&& !v.items.contains_key(key) ==> w == v
            &&& v.items.contains_key(key) ==> {
                let prev = v.items[key].prev;
                let next = v.items[key].next;
                let was_hot = v.items[key].is_hot;
                &&& k != key ==> w.items[k].next == (if prev == Some(k) {
                    next
                } else {
                    v.items[k].next
                })
                &&& k != key ==> w.items[k].prev == (if next == Some(k) {
                    prev
                } else {
                    v.items[k].prev
                })
                &&& w.hot.head == (if was_hot && v.hot.head == Some(key) {
                    next
                } else {
                    v.hot.head
                })
                &&& w.hot.tail == (if was_hot && v.hot.tail == Some(key) {
                    prev
                } else {
                    v.hot.tail
                })
                &&& w.cold.head == (if !was_hot && v.cold.head == Some(key) {
                    next
                } else {
                    v.cold.head
                })
                &&& w.cold.tail == (if !was_hot && v.cold.tail == Some(key) {
                    prev
                } else {
                    v.cold.tail
                })
            }
        }),
{
}

/// Changing what a task holds changes nothing else.
pub proof fn law_changing_is_in_place(v: QueueView, key: TaskId, value: Task, k: TaskId)
    requires
        v.items.contains_key(key),
    ensures
        ({
            let w = v.with_value(key, value);
            &&& w.items.contains_key(k) <==> v.items.contains_key(k)
            &&& w.items[key].value == value
            &&& w.items[key].prev == v.items[key].prev
            &&& w.items[key].next == v.items[key].next
            &&& w.items[key].is_hot == v.items[key].is_hot
            &&& k != key ==> w.items[k] == v.items[k]
            &&& w.hot == v.hot
            &&& w.cold == v.cold
        }),
{
}

/// The task behind one that is queued is where its link leads; behind a name that is not queued
/// there is none. In a queue of two lists, that is the next one of the list.
pub proof fn law_next_follows_the_list(
    v: QueueView,
    hot: Seq<TaskId>,
    cold: Seq<TaskId>,
    key: TaskId,
    i: int,
)
    ensures
        v.items.contains_key(key) ==> v.next(key) == v.items[key].next,
        !v.items.contains_key(key) ==> v.next(key) is None,
        lists(v, hot, cold) && 0 <= i < hot.len() ==> v.next(hot[i]) == (if i + 1 < hot.len() {
            Some(hot[i + 1])
        } else {
            None
        }),
        lists(v, hot, cold) && 0 <= i < cold.len() ==> v.next(cold[i]) == (if i + 1
            < cold.len() {
            Some(cold[i + 1])
        } else {
            None
        }),
{
    if lists(v, hot, cold) {
        if 0 <= i < hot.len() {
            assert(placed(v, hot, true, i));
        }
        if 0 <= i < cold.len() {
            assert(placed(v, cold, false, i));
        }
    }
}

/// In a queue of two lists every task is in exactly one of them, once: the hot list holds the hot
/// ones, the cold list the others. The lists begin and end where the queue says.
pub proof fn law_lists_hold_each_task_once(
    v: QueueView,
    hot: Seq<TaskId>,
    cold: Seq<TaskId>,
    k: TaskId,
)
    requires
        lists(v, hot, cold),
    ensures
        hot.contains(k) <==> v.items.contains_key(k) && v.items[k].is_hot,
        cold.contains(k) <==> v.items.contains_key(k) && !v.items[k].is_hot,
        hot.no_duplicates(),
        cold.no_duplicates(),
        v.hot.head == (if hot.len() > 0 {
            Some(hot[0])
        } else {
            None
        }),
        v.hot.tail == (if hot.len() > 0 {
            Some(hot[hot.len() - 1])
        } else {
            None
        }),
        v.cold.head == (if cold.len() > 0 {
            Some(cold[0])
        } else {
            None
        }),
        v.cold.tail == (if cold.len() > 0 {
            Some(cold[cold.len() - 1])
        } else {
            None
        }),
{
    if hot.contains(k) {
        assert(placed(v, hot, true, hot.index_of(k)));
    }
    if cold.contains(k) {
        assert(placed(v, cold, false, cold.index_of(k)));
    }
}

/// A list without a task is the list with that one place taken out, or the list itself if the task
/// is not in it. Without several tasks, it is the list without one after the other.
pub proof fn law_without_takes_out_one_place(s: Seq<TaskId>, keys: Seq<TaskId>, key: TaskId)
    ensures
        s.contains(key) ==> exists|i: int|
            0 <= i < s.len() && s[i] == key && #[trigger] s.remove(i) == without(s, key),
        !s.contains(key) ==> without(s, key) == s,
        without_all(s, Seq::empty()) == s,
        without_all(s, keys.push(key)) == without(without_all(s, keys), key),
{
    if s.contains(key) {
        let i = s.index_of(key);
        assert(s.remove(i) == without(s, key));
    }
    assert(keys.push(key).drop_last() =~= keys);
}

/// Waking tasks one after the other is waking each of them in turn.
pub proof fn law_waking_several_is_waking_each(v: QueueView, keys: Seq<TaskId>, key: TaskId)
    ensures
        v.make_all_hot(Seq::empty()) == v,
        v.make_all_hot(keys.push(key)) == v.make_all_hot(keys).make_hot(key),
{
    assert(keys.push(key).drop_last() =~= keys);
}

/// Whichever tasks are woken, however many and in whatever order: exactly they are hot afterwards,
/// besides those that were, and every task holds what it held.
pub proof fn law_waking_several_makes_them_hot(v: QueueView, keys: Seq<TaskId>, k: TaskId)
    requires
        v.wakeable(),
    ensures
        v.make_all_hot(keys).wakeable(),
        v.make_all_hot(keys).items.contains_key(k) <==> v.items.contains_key(k),
        v.make_all_hot(keys).items[k].value == v.items[k].value,
        v.items.contains_key(k) ==> v.make_all_hot(keys).items[k].is_hot == (v.items[k].is_hot
            || keys.contains(k)),
    decreases keys.len(),
{
    if keys.len() > 0 {
        let init = keys.drop_last();
        let before = v.make_all_hot(init);
        law_waking_several_makes_them_hot(v, init, k);
        assert(before.can_make_hot(keys.last()));
        law_waking_makes_hot(before, keys.last(), k);
        crate::lists::law_make_hot_keeps_wakeable(before, keys.last());
        assert(keys =~= init.push(keys.last()));
        if init.contains(k) {
            assert(keys[init.index_of(k)] == k);
        }
        if keys.contains(k) && k != keys.last() {
            assert(init[keys.index_of(k)] == k);
        }
        assert(keys[keys.len() - 1] == keys.last());
    }
}

/// The tasks that are woken come in the order in which they were first asked for: of two of them,
/// the earlier one was asked for before the later one had been.
pub proof fn law_first_asked_for_is_first(cold: Seq<TaskId>, keys: Seq<TaskId>, i: int, j: int)
    requires
        0 <= i < j < woken(cold, keys).len(),
    ensures
        exists|p: int|
            0 <= p < keys.len() && #[trigger] keys[p] == woken(cold, keys)[i] && !keys.take(
                p + 1,
            ).contains(woken(cold, keys)[j]),
    decreases keys.len(),
{
    let init = keys.drop_last();
    let last = keys.last();
    let before = woken(cold, init);
    lemma_woken(cold, keys);
    lemma_woken(cold, init);
    let w = woken(cold, keys);
    if j < before.len() {
        law_first_asked_for_is_first(cold, init, i, j);
        let p = choose|p: int|
            0 <= p < init.len() && #[trigger] init[p] == before[i] && !init.take(p + 1).contains(
                before[j],
            );
        assert(keys[p] == w[i]);
        assert(keys.take(p + 1) =~= init.take(p + 1));
    } else {
        assert(w[j] == last);
        assert(before.contains(w[i]));
        let p = init.index_of(w[i]);
        assert(init.contains(w[i]));
        assert(keys[p] == w[i]);
        if keys.take(p + 1).contains(last) {
            let q = keys.take(p + 1).index_of(last);
            assert(init[q] == last);
            assert(init.contains(last));
        }
    }
}

/// What is woken: each of the cold tasks that are asked for, once.
proof fn lemma_woken(cold: Seq<TaskId>, keys: Seq<TaskId>)
    ensures
        woken(cold, keys).no_duplicates(),
        forall|k: TaskId| #[trigger]
            woken(cold, keys).contains(k) <==> cold.contains(k) && keys.contains(k),
    decreases keys.len(),
{
    if keys.len() > 0 {
        let init = keys.drop_last();
        let last = keys.last();
        let before = woken(cold, init);
        lemma_woken(cold, init);
        assert forall|k: TaskId| #[trigger] keys.contains(k) <==> init.contains(k) || k == last by {
            if init.contains(k) {
                assert(keys[init.index_of(k)] == k);
            }
            if keys.contains(k) && k != last {
                assert(init[keys.index_of(k)] == k);
            }
            assert(keys[keys.len() - 1] == last);
        }
        assert forall|k: TaskId| #[trigger]
            before.push(last).contains(k) <==> before.contains(k) || k == last by {
            if before.contains(k) {
                assert(before.push(last)[before.index_of(k)] == k);
            }
            assert(before.push(last)[before.len() as int] == last);
        }
    }
}

/// Beginning to run a task takes out what it holds and lets it wait, and that is all: with what it
/// held put back, the queue is as if the task had only been made to wait. A name that is not queued
/// changes nothing.
pub proof fn law_running_takes_out_and_lets_wait(v: QueueView, id: TaskId, k: TaskId)
    requires
        v.can_run(id),
    ensures
        v.items.contains_key(id) ==> {
            &&& v.running(id).items[id].value.poll is None
            &&& v.running(id).with_value(id, v.items[id].value) == v.make_cold(id)
        },
        !v.items.contains_key(id) ==> v.running(id) == v,
        k != id ==> v.running(id).items[k].value == v.items[k].value,
        v.running(id).items.contains_key(k) <==> v.items.contains_key(k),
        v.items.contains_key(k) ==> v.running(id).items[k].is_hot == (v.items[k].is_hot && k
            != id),
{
    if v.items.contains_key(id) {
        let taken = v.with_value(id, Task::holding(None));
        let w = v.make_cold(id);
        let r = v.running(id).with_value(id, v.items[id].value);
        assert(r.items.dom() =~= w.items.dom());
        assert forall|j: TaskId| w.items.contains_key(j) implies r.items[j] == w.items[j] by {
            law_waiting_makes_cold(v, id, j);
            law_waiting_makes_cold(taken, id, j);
        }
        assert(r.items =~= w.items);
    }
}

/// A pending task gets back what it holds wherever it then stands, and nothing else changes: every
/// other task is as it was, and with what the task held before put back, so is the whole queue.
pub proof fn law_a_pending_task_gets_back_what_it_holds(
    v: QueueView,
    id: TaskId,
    inner: Option<Box<dyn Pollable>>,
    k: TaskId,
)
    requires
        v.items.contains_key(id),
        inner is Some,
    ensures
        v.settled(id, inner).items[id].value.poll == inner,
        v.settled(id, inner).items[id].is_hot == v.items[id].is_hot,
        v.settled(id, inner).items[id].prev == v.items[id].prev,
        v.settled(id, inner).items[id].next == v.items[id].next,
        k != id ==> v.settled(id, inner).items[k] == v.items[k],
        v.settled(id, inner).items.contains_key(k) <==> v.items.contains_key(k),
        v.settled(id, inner).hot == v.hot,
        v.settled(id, inner).cold == v.cold,
{
}

/// A task that is done with leaves the queue, and nothing else changes but the links around it.
pub proof fn law_a_finished_task_leaves(v: QueueView, id: TaskId, k: TaskId)
    requires
        v.can_settle(id, false),
    ensures
        v.settled(id, None).items.contains_key(k) <==> v.items.contains_key(k) && k != id,
        k != id ==> v.settled(id, None).items[k].value == v.items[k].value,
        k != id ==> v.settled(id, None).items[k].is_hot == v.items[k].is_hot,
        v.settled(id, None) == v.remove(id),
{
    law_removing_takes_out_one(v, id, k);
}

/// Whatever is woken and added, every task that was queued stays so, and holds what it held.
pub proof fn law_events_leave_what_tasks_hold(v: QueueView, events: Seq<Event>, k: TaskId)
    requires
        v.wakeable(),
        v.can_link(true),
        v.allows(events),
        v.items.contains_key(k),
    ensures
        v.after(events).wakeable(),
        v.after(events).can_link(true),
        v.after(events).items.contains_key(k),
        v.after(events).items[k].value == v.items[k].value,
    decreases events.len(),
{
    if events.len() > 0 {
        let before = v.after(events.drop_last());
        law_events_leave_what_tasks_hold(v, events.drop_last(), k);
        match events.last() {
            Event::Woken(id) => {
                assert(before.can_make_hot(id));
                law_waking_makes_hot(before, id, k);
                crate::lists::law_wakeable_is_kept(before, id, before.items[k].value);
            },
            Event::Spawned(id, task) => {
                crate::lists::law_wakeable_is_kept(before, id, task);
            },
        }
    }
}

/// Once a task has run and is pending, it holds what was left of it, whatever was woken and added
/// meanwhile, itself too; and every other task holds what it held before.
pub proof fn law_a_run_leaves_what_tasks_hold(
    v: QueueView,
    id: TaskId,
    events: Seq<Event>,
    inner: Option<Box<dyn Pollable>>,
    k: TaskId,
)
    requires
        v.wakeable(),
        v.can_link(true),
        v.can_run(id),
        v.items.contains_key(id),
        v.items.contains_key(k),
        v.running(id).allows(events),
    ensures
        ({
            let over = v.running(id).after(events);
            &&& inner is Some ==> {
                &&& over.settled(id, inner).items[id].value.poll == inner
                &&& k != id ==> over.settled(id, inner).items[k].value == v.items[k].value
                &&& over.settled(id, inner).items.contains_key(k)
            }
            &&& inner is None && over.can_settle(id, false) ==> {
                &&& over.settled(id, inner).items.contains_key(k) <==> k != id
                &&& k != id ==> over.settled(id, inner).items[k].value == v.items[k].value
            }
        }),
{
    let taken = v.with_value(id, Task::holding(None));
    crate::lists::law_wakeable_is_kept(v, id, Task::holding(None));
    assert(taken.can_make_cold(id));
    crate::lists::law_wakeable_is_kept(taken, id, Task::holding(None));
    law_running_takes_out_and_lets_wait(v, id, k);
    law_running_takes_out_and_lets_wait(v, id, id);
    let running = v.running(id);
    law_events_leave_what_tasks_hold(running, events, k);
    law_events_leave_what_tasks_hold(running, events, id);
    let over = running.after(events);
    if inner is Some {
        law_a_pending_task_gets_back_what_it_holds(over, id, inner, k);
    } else if over.can_settle(id, false) {
        law_a_finished_task_leaves(over, id, k);
    }
}

} // verus!
