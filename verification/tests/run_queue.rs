use compio_executor::local::LocalQueue;
use compio_executor::run_queue::make_queue;

#[test]
fn local_queue_is_first_in_first_out() {
    let mut queue = LocalQueue::with_capacity(1);
    assert!(queue.is_empty());
    assert_eq!(queue.pop(), None);
    queue.push(1);
    queue.push(2);
    assert!(!queue.is_empty());
    assert_eq!(queue.pop(), Some(1));
    assert_eq!(queue.pop(), Some(2));
    assert_eq!(queue.pop(), None);
    assert!(queue.is_empty());
}

#[test]
fn runnables_of_the_running_thread_come_first() {
    let (enq, mut deq) = make_queue();
    assert_eq!(enq.push(None, 1), Ok(()));
    assert_eq!(enq.push(None, 2), Ok(()));
    assert_eq!(enq.try_push(Some(deq.local()), 3), Ok(()));
    assert_eq!(enq.push(Some(deq.local()), 4), Ok(()));
    assert_eq!(deq.pop(), Some(3));
    assert_eq!(deq.pop(), Some(4));
    assert_eq!(deq.pop(), Some(1));
    assert_eq!(deq.pop(), Some(2));
    assert_eq!(deq.pop(), None);
}

#[test]
fn emptiness_is_that_of_the_queue_pushed_to() {
    let (enq, mut deq) = make_queue();
    assert!(enq.is_empty(None));
    assert!(enq.is_empty(Some(deq.local())));
    assert_eq!(enq.push(Some(deq.local()), 'a'), Ok(()));
    assert!(enq.is_empty(None));
    assert!(!enq.is_empty(Some(deq.local())));
    assert_eq!(enq.clone().push(None, 'b'), Ok(()));
    assert!(!enq.is_empty(None));
    assert_eq!(deq.pop(), Some('a'));
    assert!(enq.is_empty(Some(deq.local())));
}

#[test]
fn the_channel_takes_64_and_the_local_queue_any_number() {
    let (enq, mut deq) = make_queue();
    for i in 0..64 {
        assert_eq!(enq.push(None, i), Ok(()));
    }
    for i in 0..200 {
        assert_eq!(enq.try_push(Some(deq.local()), i), Ok(()));
    }
    for i in 0..200 {
        assert_eq!(deq.pop(), Some(i));
    }
    for i in 0..64 {
        assert_eq!(deq.pop(), Some(i));
    }
    assert_eq!(deq.pop(), None);
    assert_eq!(enq.push(None, 64), Ok(()));
    assert_eq!(deq.pop(), Some(64));
}

#[test]
fn runnables_come_back_once_nobody_runs_them() {
    let (enq, deq) = make_queue();
    drop(deq);
    assert_eq!(enq.push(None, 6), Err(6));
}

#[test]
fn trying_to_push_from_another_thread_gives_the_runnable_back() {
    let (enq, mut deq) = make_queue();
    assert_eq!(enq.try_push(None, 5), Err(5));
    assert!(enq.is_empty(None));
    assert_eq!(deq.pop(), None);
    assert_eq!(enq.try_push(Some(deq.local()), 5), Ok(()));
    assert_eq!(deq.pop(), Some(5));
    drop(deq);
    assert_eq!(enq.try_push(None, 6), Err(6));
}

#[test]
fn the_two_ends_and_their_clones_belong_to_one_queue() {
    let (enq, mut deq) = make_queue();
    let (other_enq, mut other_deq) = make_queue();
    assert_eq!(enq.push(None, 1), Ok(()));
    assert_eq!(enq.clone().push(None, 2), Ok(()));
    assert_eq!(other_enq.push(None, 3), Ok(()));
    assert_eq!(deq.pop(), Some(1));
    assert_eq!(deq.pop(), Some(2));
    assert_eq!(deq.pop(), None);
    assert_eq!(other_deq.pop(), Some(3));
    assert_eq!(other_deq.pop(), None);
}

#[test]
fn runnables_of_the_running_thread_come_out_in_push_order() {
    let (enq, mut deq) = make_queue();
    let mut out = Vec::new();
    for i in 0..20 {
        assert_eq!(enq.push(Some(deq.local()), i), Ok(()));
        if i % 3 == 0 {
            out.push(deq.pop().unwrap());
        }
    }
    while let Some(runnable) = deq.pop() {
        out.push(runnable);
    }
    assert_eq!(out, (0..20).collect::<Vec<i32>>());
}
