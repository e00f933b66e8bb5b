use std::task::Poll;
use vstd::prelude::*;

use crate::channel::is_channel;
use crate::config::ExecutorConfig;
use crate::join::JoinHandle;
use crate::queue::{law_run_leaves_the_rest, Event, TaskIter, TaskQueue};
use crate::slot_queue::QueueView;
use crate::slots::{gave, none_given, TaskId};
use crate::task::{Pollable, Task};

verus! {

/// Runs tasks on one thread.
pub struct Executor<E> {
    /// The tasks.
    pub queue: TaskQueue,
    /// How the executor is set up.
    pub config: ExecutorConfig<E>,
}

/// One round through the tasks.
#[derive(Debug, Clone, Copy)]
pub struct Tick {
    /// The place in the queue.
    pub iter: TaskIter,
    /// How many tasks may still be run.
    pub left: u32,
}

/// What to do once the main future has been polled.
#[derive(Debug, PartialEq, Eq)]
pub enum Turn<T, R> {
    /// Return what the main future came to.
    Return(T),
    /// Run a round of tasks, then poll the main future again.
    Tick(R),
}

impl<E> Executor<E> {
    /// An executor that is set up as usual.
    pub fn new() -> (executor: Self)
        ensures
            executor.queue@ == QueueView::empty(),
            is_channel(64, executor.queue.ends()),
            executor.queue.received() == Seq::<Option<TaskId>>::empty(),
            executor.queue.sent() == Seq::<(TaskId, Result<(), TaskId>)>::empty(),
            executor.queue.given() == none_given(),
            executor.config == (ExecutorConfig {
                sync_queue_size: 64,
                local_queue_size: 63,
                max_interval: 32,
                extra: None::<E>,
            }),
    {
        Self::with_config(ExecutorConfig::default())
    }

    /// An executor that is set up as `config` says.
    pub fn with_config(config: ExecutorConfig<E>) -> (executor: Self)
        requires
            config.valid(),
        ensures
            executor.queue@ == QueueView::empty(),
            is_channel(config.sync_queue_size, executor.queue.ends()),
            executor.queue.received() == Seq::<Option<TaskId>>::empty(),
            executor.queue.sent() == Seq::<(TaskId, Result<(), TaskId>)>::empty(),
            executor.queue.given() == none_given(),
            executor.config == config,
    {
        Executor { queue: TaskQueue::new(&config), config }
    }

    /// Takes down one poll of the main future. While it is pending, the tasks that other threads
    /// have asked for are woken, and a round of tasks is due.
    pub fn block_on<T>(&mut self, polled: Poll<T>) -> (turn: Turn<T, Tick>)
        requires
            polled is Pending ==> old(self).queue@.wakeable(),
        ensures
            final(self).config == old(self).config,
            match polled {
                Poll::Ready(output) => turn == Turn::<T, Tick>::Return(output) && *final(self)
                    == *old(self),
                Poll::Pending => {
                    &&& turn == Turn::<T, Tick>::Tick(final(self).round())
                    &&& turn matches Turn::Tick(tick) ==> {
                        &&& tick.left == old(self).config.max_interval
                        &&& tick.iter.head == final(self).queue@.hot.head
                        &&& tick.iter.is_hot
                    }
                    &&& final(self).queue@.wakeable()
                    &&& final(self).queue@.items.dom() == old(self).queue@.items.dom()
                    &&& exists|ids: Seq<TaskId>|
                        #[trigger] old(self).queue.flushed(ids, final(self).queue)
                },
            },
    {
        match polled {
            Poll::Ready(output) => Turn::Return(output),
            Poll::Pending => {
                self.queue.flush_sync();
                Turn::Tick(self.tick())
            },
        }
    }

    /// The round through the tasks that starts now.
    pub open spec fn round(self) -> Tick {
        Tick { iter: TaskIter::start(self.queue@), left: self.config.max_interval }
    }

    /// Starts a round through the tasks. Each task that it yields is to be run before the next one
    /// is asked for.
    pub fn tick(&self) -> (tick: Tick)
        ensures
            tick == self.round(),
            tick.left == self.config.max_interval,
            tick.iter.head == self.queue@.hot.head,
            tick.iter.is_hot,
    {
        Tick { iter: self.queue.iter(), left: self.config.max_interval }
    }

    /// What is attached to the task that is spawned next, if anything.
    pub open spec fn attaches<X>(self, extra: Option<X>) -> bool where E: Fn() -> X {
        match self.config.extra {
            Some(make) => extra matches Some(made) && call_ensures(make, (), made),
            None => extra is None,
        }
    }

    /// Adds the task that `make` returns for its name and for what is attached to it, and returns
    /// the handle to wait for it.
    pub fn spawn<X, F: FnOnce(TaskId, Option<X>) -> Task>(&mut self, make: F) -> (join: JoinHandle)
        where E: Fn() -> X
        requires
            old(self).queue@.can_push(),
            old(self).config.extra matches Some(extra) ==> call_requires(extra, ()),
            forall|id: TaskId, extra: Option<X>| call_requires(make, (id, extra)),
        ensures
            final(self).config == old(self).config,
            final(self).queue.ends() == old(self).queue.ends(),
            final(self).queue.received() == old(self).queue.received(),
            final(self).queue.sent() == old(self).queue.sent(),
            !old(self).queue@.items.contains_key(join.id()),
            gave(old(self).queue.given(), join.id(), final(self).queue.given()),
            exists|extra: Option<X>, task: Task|
                old(self).attaches(extra) && (match old(self).config.extra {
                    Some(make) => extra matches Some(made) && call_ensures(make, (), made),
                    None => extra is None,
                }) && #[trigger] call_ensures(
                    make,
                    (join.id(), extra),
                    task,
                ) && final(self).queue@ == old(self).queue@.push_back(join.id(), task),
    {
        let extra = match &self.config.extra {
            Some(make) => Some(make()),
            None => None,
        };
        let ghost attached = extra;
        assert(self.attaches(attached));
        let make_task = |id: TaskId| -> (task: Task)
            ensures
                call_ensures(make, (id, attached), task),
        {
            make(id, extra)
        };
        let id = self.queue.push(make_task);
        JoinHandle::new(self.queue.handle(id))
    }
}

impl Tick {
    /// The next task to run.
    pub open spec fn yielded(self, v: QueueView) -> Option<TaskId> {
        if self.left == 0 {
            None
        } else {
            self.iter.turned(v).head
        }
    }

    /// What is left of the round once the next task has been asked for.
    pub open spec fn stepped(self, v: QueueView) -> Tick {
        if self.left == 0 {
            self
        } else {
            Tick { iter: self.iter.advanced(v), left: (self.left - 1) as u32 }
        }
    }

    /// The tasks that the round yields, where the queue is `views[i]` when a task is asked for
    /// after `i` others.
    pub open spec fn yields(self, views: Seq<QueueView>) -> Seq<TaskId>
        decreases views.len(),
    {
        if views.len() == 0 {
            Seq::empty()
        } else {
            match self.yielded(views[0]) {
                Some(id) => seq![id] + self.stepped(views[0]).yields(views.drop_first()),
                None => Seq::empty(),
            }
        }
    }

    /// The next task to run, as the queue is now.
    pub fn next(&mut self, queue: &TaskQueue) -> (id: Option<TaskId>)
        ensures
            id == old(self).yielded(queue@),
            *final(self) == old(self).stepped(queue@),
            old(self).left == 0 ==> id is None && *final(self) == *old(self),
            old(self).left > 0 ==> {
                &&& final(self).left == old(self).left - 1
                &&& id == (if old(self).iter.head is None && old(self).iter.is_hot {
                    queue@.cold.head
                } else {
                    old(self).iter.head
                })
                &&& final(self).iter.is_hot == (old(self).iter.is_hot && old(
                    self).iter.head is Some)
                &&& final(self).iter.head == (match id {
                    Some(id) if queue@.items.contains_key(id) => queue@.items[id].next,
                    _ => None,
                })
            },
    {
        if self.left == 0 {
            return None;
        }
        self.left -= 1;
        self.iter.next(queue)
    }
}

/// A round yields no more tasks than it may, whatever becomes of the queue meanwhile.
pub proof fn law_round_is_bounded(tick: Tick, views: Seq<QueueView>)
    ensures
        tick.yields(views).len() <= tick.left,
    decreases views.len(),
{
    if views.len() > 0 && tick.yielded(views[0]) is Some {
        law_round_is_bounded(tick.stepped(views[0]), views.drop_first());
    }
}

/// Whether a round that begins as `ticks[0]` answers `ids[i]` when a task is asked for after `i`
/// others, where the queue is `views[i]` then.
pub open spec fn answers_in_turn(
    ticks: Seq<Tick>,
    views: Seq<QueueView>,
    ids: Seq<Option<TaskId>>,
) -> bool {
    &&& ticks.len() == views.len() + 1
    &&& ids.len() == views.len()
    &&& forall|i: int|
        0 <= i < views.len() ==> {
            &&& #[trigger] ids[i] == ticks[i].yielded(views[i])
            &&& ticks[i + 1] == ticks[i].stepped(views[i])
        }
}

/// The round that an executor starts may run as many tasks as the executor is set up for, and starts
/// with the first hot task. It yields no more than that, whatever becomes of the queue meanwhile.
pub proof fn law_a_round_starts_as_set_up<E>(executor: Executor<E>, views: Seq<QueueView>)
    ensures
        executor.round().yields(views).len() <= executor.config.max_interval,
        executor.round().left == executor.config.max_interval,
        executor.round().iter.is_hot,
        executor.round().iter.head == executor.queue@.hot.head,
{
    law_round_is_bounded(executor.round(), views);
}

/// The round that an executor starts yields no more tasks than the executor is set up for, whatever
/// becomes of the queue meanwhile: however often it is asked, it answers with a task at most that
/// many times, and only at first.
pub proof fn law_a_round_is_bounded_by_the_setup<E>(
    executor: Executor<E>,
    ticks: Seq<Tick>,
    views: Seq<QueueView>,
    ids: Seq<Option<TaskId>>,
    i: int,
)
    requires
        answers_in_turn(ticks, views, ids),
        ticks[0] == executor.round(),
        executor.config.max_interval <= i < ids.len(),
    ensures
        ids[i] is None,
{
    lemma_left(ticks, views, ids, i);
}

/// Each task that is asked for takes one off what may still be run.
proof fn lemma_left(ticks: Seq<Tick>, views: Seq<QueueView>, ids: Seq<Option<TaskId>>, i: int)
    requires
        answers_in_turn(ticks, views, ids),
        0 <= i < ids.len(),
    ensures
        ticks[i].left == (if i <= ticks[0].left {
            ticks[0].left - i
        } else {
            0
        }),
        ids[i] == ticks[i].yielded(views[i]),
    decreases i,
{
    assert(ids[i] == ticks[i].yielded(views[i]));
    if i > 0 {
        lemma_left(ticks, views, ids, i - 1);
        assert(ticks[i - 1 + 1] == ticks[i - 1].stepped(views[i - 1]));
    }
}

/// What a round yields is what it answers, up to where it first has no task to answer with.
pub proof fn law_a_round_yields_what_it_answers(
    ticks: Seq<Tick>,
    views: Seq<QueueView>,
    ids: Seq<Option<TaskId>>,
)
    requires
        answers_in_turn(ticks, views, ids),
    ensures
        ticks[0].yields(views).len() <= ids.len(),
        forall|i: int|
            0 <= i < ticks[0].yields(views).len() ==> ids[i] == Some(
                #[trigger] ticks[0].yields(views)[i],
            ),
        ticks[0].yields(views).len() < ids.len() ==> ids[ticks[0].yields(views).len() as int]
            is None,
    decreases views.len(),
{
    if views.len() > 0 {
        assert(ids[0] == ticks[0].yielded(views[0]));
        if ids[0] is Some {
            let rest = views.drop_first();
            let later = ticks.drop_first();
            let others = ids.drop_first();
            assert forall|i: int| 0 <= i < rest.len() implies {
                &&& #[trigger] others[i] == later[i].yielded(rest[i])
                &&& later[i + 1] == later[i].stepped(rest[i])
            } by {
                assert(ids[i + 1] == ticks[i + 1].yielded(views[i + 1]));
            }
            law_a_round_yields_what_it_answers(later, rest, others);
            let all = ticks[0].yields(views);
            assert(all == seq![ids[0]->0] + later[0].yields(rest));
            assert forall|i: int| 0 <= i < all.len() implies ids[i] == Some(#[trigger] all[i]) by {
                if i > 0 {
                    assert(all[i] == later[0].yields(rest)[i - 1]);
                    assert(others[i - 1] == ids[i]);
                }
            }
            if all.len() < ids.len() {
                assert(others[all.len() - 1] == ids[all.len() as int]);
            }
        }
    }
}

/// In a queue of two lists that stays as it is, the round that an executor starts yields the hot
/// tasks in order, then the cold ones, as many as the executor is set up for.
pub proof fn law_a_round_takes_the_first_tasks<E>(
    executor: Executor<E>,
    hot: Seq<TaskId>,
    cold: Seq<TaskId>,
    views: Seq<QueueView>,
)
    requires
        crate::lists::lists(executor.queue@, hot, cold),
        forall|j: int| 0 <= j < views.len() ==> views[j] == executor.queue@,
        views.len() >= executor.config.max_interval || views.len() >= hot.len() + cold.len(),
    ensures
        executor.round().yields(views) == (hot + cold).take(
            vstd::math::min(executor.config.max_interval as int, (hot.len() + cold.len()) as int),
        ),
{
    let tick = executor.round();
    crate::queue::law_iteration(executor.queue@, hot, cold, tick.iter, 0);
    law_round_goes_hot_to_cold(executor.queue@, hot, cold, tick, 0, views);
    assert((hot + cold).skip(0) =~= hot + cold);
}

/// What is attached to a task is made for it if the executor is set up to attach anything, and is
/// nothing otherwise.
pub proof fn law_attached_as_set_up<E, X>(executor: Executor<E>, extra: Option<X>) where
    E: Fn() -> X,

    requires
        executor.attaches(extra),
    ensures
        executor.config.extra is None ==> extra is None,
        executor.config.extra matches Some(make) ==> extra matches Some(made) && call_ensures(
            make,
            (),
            made,
        ),
{
}

/// As long as the queue stays as it is, a round yields the hot tasks in order, then the cold ones,
/// until it has yielded as many as it may.
pub proof fn law_round_goes_hot_to_cold(
    v: QueueView,
    hot: Seq<TaskId>,
    cold: Seq<TaskId>,
    tick: Tick,
    i: int,
    views: Seq<QueueView>,
)
    requires
        crate::lists::lists(v, hot, cold),
        crate::queue::stands_at(tick.iter, hot, cold, i),
        forall|j: int| 0 <= j < views.len() ==> views[j] == v,
    ensures
        tick.yields(views) == (hot + cold).skip(i).take(
            vstd::math::min(
                vstd::math::min(tick.left as int, views.len() as int),
                hot.len() + cold.len() - i,
            ),
        ),
    decreases views.len(),
{
    crate::queue::law_iteration(v, hot, cold, tick.iter, i);
    let all = hot + cold;
    if views.len() > 0 && tick.yielded(v) is Some {
        law_round_goes_hot_to_cold(v, hot, cold, tick.stepped(v), i + 1, views.drop_first());
        let n = vstd::math::min(
            vstd::math::min(tick.left as int, views.len() as int),
            all.len() - i,
        );
        assert(all.skip(i).take(n) =~= seq![all[i]] + all.skip(i + 1).take(n - 1));
    } else {
        assert(tick.yields(views) =~= all.skip(i).take(0));
    }
}

/// A round goes along the hot list as it was when the round began, as long as the tasks that have
/// been run are gone from its head. Here the queue is `views[j]` after `j` of them have been run,
/// and the tasks `woken[j]` have come to the end of the hot list meanwhile.
pub proof fn law_round_follows_the_hot_list(
    tick: Tick,
    hot: Seq<TaskId>,
    views: Seq<QueueView>,
    woken: Seq<Seq<TaskId>>,
    colds: Seq<Seq<TaskId>>,
)
    requires
        0 < views.len() <= hot.len(),
        views.len() <= tick.left,
        woken.len() == views.len(),
        colds.len() == views.len(),
        tick.iter == TaskIter::start(views[0]),
        forall|j: int|
            0 <= j < views.len() ==> crate::lists::lists(
                #[trigger] views[j],
                hot.skip(j) + woken[j],
                colds[j],
            ),
    ensures
        tick.yields(views) == hot.take(views.len() as int),
    decreases views.len(),
{
    let v = views[0];
    let all = hot.skip(0) + woken[0];
    assert(crate::lists::lists(v, all, colds[0]));
    assert(all[0] == hot[0]);
    assert(crate::lists::placed(v, all, true, 0));
    let rest = views.drop_first();
    let next = tick.stepped(v);
    if rest.len() > 0 {
        assert(all[1] == hot[1]);
        assert(rest[0] == views[1]);
        let later = hot.skip(1) + woken[1];
        assert(crate::lists::lists(views[1], later, colds[1]));
        assert(later[0] == hot[1]);
        assert forall|j: int| 0 <= j < rest.len() implies crate::lists::lists(
            #[trigger] rest[j],
            hot.drop_first().skip(j) + woken.drop_first()[j],
            colds.drop_first()[j],
        ) by {
            assert(rest[j] == views[j + 1]);
            assert(hot.drop_first().skip(j) =~= hot.skip(j + 1));
            assert(woken.drop_first()[j] == woken[j + 1]);
            assert(colds.drop_first()[j] == colds[j + 1]);
        }
        law_round_follows_the_hot_list(
            next,
            hot.drop_first(),
            rest,
            woken.drop_first(),
            colds.drop_first(),
        );
    }
    assert(next.yields(rest) =~= hot.drop_first().take(rest.len() as int));
    assert(tick.yields(views) == seq![hot[0]] + next.yields(rest));
    assert(seq![hot[0]] + hot.drop_first().take(rest.len() as int) =~= hot.take(
        views.len() as int,
    ));
}

/// Whether the queue is `views[j]` after the first `j` of the tasks `ids` have been run one after
/// the other, where `events[j]` happened while `ids[j]` ran, and `inners[j]` is what was left of it
/// to be polled again.
pub open spec fn runs(
    ids: Seq<TaskId>,
    views: Seq<QueueView>,
    events: Seq<Seq<Event>>,
    inners: Seq<Option<Box<dyn Pollable>>>,
) -> bool {
    forall|j: int|
        0 <= j < views.len() - 1 ==> {
            &&& views[j].running(ids[j]).allows(events[j])
            &&& #[trigger] views[j + 1] == views[j].running(ids[j]).after(events[j]).settled(
                ids[j],
                inners[j],
            )
        }
}

/// A round runs the tasks that are hot when it begins, in order, as far as it may, whatever they
/// wake and add while they run, and whether they are done with or not.
pub proof fn law_round_runs_the_hot_tasks(
    tick: Tick,
    hot: Seq<TaskId>,
    cold: Seq<TaskId>,
    views: Seq<QueueView>,
    events: Seq<Seq<Event>>,
    inners: Seq<Option<Box<dyn Pollable>>>,
)
    requires
        0 < views.len() <= hot.len(),
        views.len() <= tick.left,
        tick.iter == TaskIter::start(views[0]),
        crate::lists::lists(views[0], hot, cold),
        runs(hot, views, events, inners),
    ensures
        tick.yields(views) == hot.take(views.len() as int),
{
    let n = views.len();
    let found = Seq::new(
        n,
        |j: int| choose|found: (Seq<TaskId>, Seq<TaskId>)| #[trigger]
            crate::lists::lists(views[j], hot.skip(j) + found.0, found.1),
    );
    let woken = Seq::new(n, |j: int| found[j].0);
    let colds = Seq::new(n, |j: int| found[j].1);
    assert forall|j: int| 0 <= j < views.len() implies crate::lists::lists(
        #[trigger] views[j],
        hot.skip(j) + woken[j],
        colds[j],
    ) by {
        lemma_rest_is_hot(hot, cold, views, events, inners, j);
        let (more, rest) = choose|more: Seq<TaskId>, rest: Seq<TaskId>| #[trigger]
            crate::lists::lists(views[j], hot.skip(j) + more, rest);
        let pair = (more, rest);
        assert(crate::lists::lists(views[j], hot.skip(j) + pair.0, pair.1));
    }
    law_round_follows_the_hot_list(tick, hot, views, woken, colds);
}

/// After the first `j` hot tasks have been run, the others are still at the head of the hot list.
proof fn lemma_rest_is_hot(
    hot: Seq<TaskId>,
    cold: Seq<TaskId>,
    views: Seq<QueueView>,
    events: Seq<Seq<Event>>,
    inners: Seq<Option<Box<dyn Pollable>>>,
    j: int,
)
    requires
        0 <= j < views.len() <= hot.len(),
        crate::lists::lists(views[0], hot, cold),
        runs(hot, views, events, inners),
    ensures
        exists|more: Seq<TaskId>, rest: Seq<TaskId>| #[trigger]
            crate::lists::lists(views[j], hot.skip(j) + more, rest),
    decreases j,
{
    if j == 0 {
        assert(hot.skip(0) + Seq::<TaskId>::empty() =~= hot);
        assert(crate::lists::lists(views[0], hot.skip(0) + Seq::<TaskId>::empty(), cold));
    } else {
        lemma_rest_is_hot(hot, cold, views, events, inners, j - 1);
        let (more, rest) = choose|more: Seq<TaskId>, rest: Seq<TaskId>| #[trigger]
            crate::lists::lists(views[j - 1], hot.skip(j - 1) + more, rest);
        let all = hot.skip(j - 1) + more;
        assert(all[0] == hot[j - 1]);
        assert(views[(j - 1) + 1] == views[j]);
        law_run_leaves_the_rest(views[j - 1], all, rest, events[j - 1], inners[j - 1]);
        let (later, cooled) = choose|later: Seq<TaskId>, cooled: Seq<TaskId>| #[trigger]
            crate::lists::lists(views[j], all.drop_first() + later, cooled);
        assert(all.drop_first() + later =~= hot.skip(j) + (more + later));
        assert(crate::lists::lists(views[j], hot.skip(j) + (more + later), cooled));
    }
}

} // verus!
