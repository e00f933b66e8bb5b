use std::task::Poll;

use compio_executor::slot_queue::SlotQueue;
use compio_executor::slots::TaskId;
use compio_executor::task::{Pollable, Task};

/// Is pending for a number of polls.
struct Countdown(u32);

impl Pollable for Countdown {
    fn poll(&mut self) -> Poll<()> {
        if self.0 == 0 {
            Poll::Ready(())
        } else {
            self.0 -= 1;
            Poll::Pending
        }
    }
}

fn task(polls: u32) -> Task {
    Task::new(Box::new(Countdown(polls)))
}

fn push(queue: &mut SlotQueue) -> TaskId {
    assert!(queue.can_push());
    queue.push_back_with(|_| task(0))
}

fn make_hot(queue: &mut SlotQueue, key: TaskId) {
    assert!(queue.can_make_hot(key));
    queue.make_hot(key);
}

fn make_cold(queue: &mut SlotQueue, key: TaskId) {
    assert!(queue.can_make_cold(key));
    queue.make_cold(key);
}

fn remove(queue: &mut SlotQueue, key: TaskId) -> Option<Task> {
    assert!(queue.can_remove(key));
    queue.remove(key)
}

fn list_from(queue: &SlotQueue, head: Option<TaskId>) -> Vec<TaskId> {
    let mut ids = Vec::new();
    let mut link = head;
    while let Some(id) = link {
        ids.push(id);
        link = queue.next(id);
    }
    ids
}

fn hot(queue: &SlotQueue) -> Vec<TaskId> {
    list_from(queue, queue.hot_head())
}

fn cold(queue: &SlotQueue) -> Vec<TaskId> {
    list_from(queue, queue.cold_head())
}

#[test]
fn a_new_queue_is_empty() {
    let queue = SlotQueue::new(4);
    assert_eq!(queue.len(), 0);
    assert_eq!(queue.hot_head(), None);
    assert_eq!(queue.cold_head(), None);
    assert!(queue.wakeable());
}

#[test]
fn tasks_are_added_at_the_end_of_the_hot_list() {
    let mut queue = SlotQueue::new(0);
    let a = push(&mut queue);
    let b = push(&mut queue);
    let c = push(&mut queue);
    assert!(a != b && b != c && a != c);
    assert_eq!(queue.len(), 3);
    assert_eq!(hot(&queue), vec![a, b, c]);
    assert_eq!(cold(&queue), vec![]);
}

#[test]
fn a_task_is_made_with_its_own_name() {
    let mut queue = SlotQueue::new(1);
    let mut seen = None;
    let id = queue.push_back_with(|id| {
        seen = Some(id);
        task(0)
    });
    assert_eq!(seen, Some(id));
    assert!(queue.contains(id));
}

#[test]
fn hot_tasks_become_cold_from_any_place() {
    for place in 0..3 {
        let mut queue = SlotQueue::new(3);
        let ids = [push(&mut queue), push(&mut queue), push(&mut queue)];
        make_cold(&mut queue, ids[place]);
        let mut left = ids.to_vec();
        left.remove(place);
        assert_eq!(hot(&queue), left);
        assert_eq!(cold(&queue), vec![ids[place]]);
        make_hot(&mut queue, ids[place]);
        left.push(ids[place]);
        assert_eq!(hot(&queue), left);
        assert_eq!(cold(&queue), vec![]);
    }
}

#[test]
fn wake_ups_are_served_in_order() {
    let mut queue = SlotQueue::new(4);
    let a = push(&mut queue);
    let b = push(&mut queue);
    let c = push(&mut queue);
    let d = push(&mut queue);
    for id in [a, b, c] {
        make_cold(&mut queue, id);
    }
    assert_eq!(cold(&queue), vec![a, b, c]);
    make_hot(&mut queue, c);
    make_hot(&mut queue, a);
    assert_eq!(hot(&queue), vec![d, c, a]);
    assert_eq!(cold(&queue), vec![b]);
}

#[test]
fn waking_twice_is_waking_once() {
    let mut queue = SlotQueue::new(2);
    let a = push(&mut queue);
    let b = push(&mut queue);
    make_hot(&mut queue, a);
    assert_eq!(hot(&queue), vec![a, b]);
    make_cold(&mut queue, a);
    make_hot(&mut queue, a);
    make_hot(&mut queue, a);
    assert_eq!(hot(&queue), vec![b, a]);
}

#[test]
fn removed_tasks_leave_their_list() {
    for place in 0..3 {
        let mut queue = SlotQueue::new(3);
        let ids = [push(&mut queue), push(&mut queue), push(&mut queue)];
        for id in ids {
            make_cold(&mut queue, id);
        }
        assert!(remove(&mut queue, ids[place]).is_some());
        let mut left = ids.to_vec();
        left.remove(place);
        assert_eq!(cold(&queue), left);
        assert_eq!(queue.len(), 2);
        assert!(!queue.contains(ids[place]));
        assert!(queue.wakeable());
    }
}

#[test]
fn unknown_names_change_nothing() {
    let mut queue = SlotQueue::new(2);
    let a = push(&mut queue);
    let b = push(&mut queue);
    assert!(remove(&mut queue, a).is_some());
    make_hot(&mut queue, a);
    make_cold(&mut queue, a);
    assert!(remove(&mut queue, a).is_none());
    assert_eq!(queue.next(a), None);
    assert!(queue.get(a).is_none());
    assert_eq!(hot(&queue), vec![b]);
    // The slot is used again, under another name.
    let c = push(&mut queue);
    assert!(c != a);
    assert!(!queue.contains(a));
    assert_eq!(hot(&queue), vec![b, c]);
}

#[test]
fn tasks_are_changed_in_place() {
    let mut queue = SlotQueue::new(1);
    let id = queue.push_back_with(|_| task(1));
    assert!(queue.is_idle(id));
    let mut inner = queue.get(id).unwrap().take().unwrap();
    assert!(!queue.is_idle(id));
    assert!(queue.get(id).unwrap().take().is_none());
    assert_eq!(inner.poll(), Poll::Pending);
    queue.get(id).unwrap().reset(inner);
    assert!(queue.is_idle(id));
    let mut inner = remove(&mut queue, id).unwrap().take().unwrap();
    assert_eq!(inner.poll(), Poll::Ready(()));
}

#[test]
fn the_last_cold_task_made_cold_again_comes_behind_itself() {
    let mut queue = SlotQueue::new(1);
    let a = push(&mut queue);
    make_cold(&mut queue, a);
    make_cold(&mut queue, a);
    assert_eq!(queue.cold_head(), Some(a));
    assert_eq!(queue.next(a), Some(a));
    assert!(queue.wakeable());
    // Removing it leaves an end of the list that leads nowhere.
    assert!(remove(&mut queue, a).is_some());
    assert_eq!(queue.cold_head(), Some(a));
    let b = push(&mut queue);
    assert!(!queue.can_make_cold(b));
}

#[test]
fn a_cold_task_made_cold_again_hides_those_behind_it() {
    let mut queue = SlotQueue::new(2);
    let a = push(&mut queue);
    let b = push(&mut queue);
    make_cold(&mut queue, a);
    make_cold(&mut queue, b);
    make_cold(&mut queue, a);
    assert_eq!(cold(&queue), vec![a]);
    assert_eq!(queue.next(b), Some(a));
    assert!(queue.wakeable());
    // Removing it leaves a link that leads nowhere.
    assert!(remove(&mut queue, a).is_some());
    assert_eq!(queue.cold_head(), None);
    assert!(!queue.can_make_hot(b));
    assert!(!queue.can_remove(b));
    assert!(!queue.wakeable());
}

#[test]
fn removed_names_stay_unknown() {
    let mut queue = SlotQueue::new(2);
    let kept = push(&mut queue);
    let mut removed = Vec::new();
    for _ in 0..500 {
        let id = push(&mut queue);
        assert!(!removed.contains(&id));
        make_cold(&mut queue, id);
        make_hot(&mut queue, id);
        assert!(remove(&mut queue, id).is_some());
        removed.push(id);
    }
    let last = push(&mut queue);
    for id in removed {
        assert!(!queue.contains(id));
        assert!(queue.get(id).is_none());
        assert_eq!(queue.next(id), None);
    }
    assert_eq!(hot(&queue), vec![kept, last]);
}

#[test]
fn wake_ups_of_any_names_are_served_by_first_arrival() {
    let mut queue = SlotQueue::new(5);
    let ids: Vec<TaskId> = (0..5).map(|_| push(&mut queue)).collect();
    let unknown = push(&mut queue);
    assert!(remove(&mut queue, unknown).is_some());
    for id in &ids[1..] {
        make_cold(&mut queue, *id);
    }
    for id in [ids[3], ids[0], unknown, ids[1], ids[3], ids[4], ids[1]] {
        make_hot(&mut queue, id);
    }
    assert_eq!(hot(&queue), vec![ids[0], ids[3], ids[1], ids[4]]);
    assert_eq!(cold(&queue), vec![ids[2]]);
}
