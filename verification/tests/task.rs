use usync::task::task::{Task, TaskId, TaskIdAllocator};
use usync::task::waker::{TaskWaker, TimerWaker};
use crossbeam_queue::ArrayQueue;
use std::sync::Arc;

#[test]
fn task_ids_count_up_from_zero() {
    let mut ids = TaskIdAllocator::new();
    assert_eq!(ids.peek(), 0);
    let a = TaskId::new(&mut ids);
    let b = TaskId::new(&mut ids);
    let c = TaskId::new(&mut ids);
    assert_eq!(a, TaskId(0));
    assert_eq!(b, TaskId(1));
    assert_eq!(c.value(), 2);
    assert_eq!(ids.peek(), 3);
}

#[test]
fn task_ids_are_distinct() {
    let mut ids = TaskIdAllocator::new();
    let mut seen = Vec::new();
    for _ in 0..1000 {
        let id = TaskId::new(&mut ids);
        assert!(!seen.contains(&id));
        seen.push(id);
    }
}

#[test]
fn task_keeps_its_id_and_future() {
    let mut ids = TaskIdAllocator::new();
    let first = Task::new(&mut ids, "first");
    let second = Task::new(&mut ids, "second");
    assert_eq!(first.get_id(), TaskId(0));
    assert_eq!(second.get_id(), TaskId(1));
    assert_eq!(first.future, "first");
    assert_eq!(second.future, "second");
}

#[test]
fn task_waker_pushes_its_id() {
    let queue = Arc::new(ArrayQueue::new(2));
    let waker = TaskWaker::new(TaskId(7), queue.clone());
    assert_eq!(waker.wake_task(), Ok(()));
    assert_eq!(waker.wake_task(), Ok(()));
    assert_eq!(queue.pop(), Some(TaskId(7)));
    assert_eq!(queue.pop(), Some(TaskId(7)));
    assert_eq!(queue.pop(), None);
}

#[test]
fn task_waker_reports_a_full_queue() {
    let queue = Arc::new(ArrayQueue::new(1));
    let waker = TaskWaker::new(TaskId(3), queue.clone());
    assert_eq!(waker.wake_task(), Ok(()));
    assert_eq!(waker.wake_task(), Err(TaskId(3)));
    assert_eq!(queue.len(), 1);
}

#[test]
fn timer_waker_keeps_its_time() {
    let mut t = TimerWaker::new(42);
    assert_eq!(t.get_time(), 42);
    t.register_waker(&futures_util::task::noop_waker());
    t.wake();
}

#[test]
fn timer_wakers_compare_by_deadline() {
    let early = TimerWaker::new(3);
    let late = TimerWaker::new(5);
    let also_early = TimerWaker::new(3);
    assert!(early < late);
    assert!(late > early);
    assert!(early == also_early);
    assert!(early != late);
    assert_eq!(early.partial_cmp(&late), Some(std::cmp::Ordering::Less));
    assert_eq!(late.partial_cmp(&early), Some(std::cmp::Ordering::Greater));
    assert_eq!(early.partial_cmp(&also_early), Some(std::cmp::Ordering::Equal));
}
