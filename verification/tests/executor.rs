use usync::task::executor::{Executor, SpawnError, Step, TASK_QUEUE_CAPACITY};
use usync::task::task::TaskId;
use usync::task::waker::TaskWaker;

fn run_id<F, W>(step: Step<F, W>) -> (u32, F, Option<W>) {
    match step {
        Step::Run(task, waker) => (task.id.0, task.future, waker),
        Step::Idle => panic!("expected a task, got Idle"),
        Step::Skip(id) => panic!("expected a task, got Skip({})", id.0),
    }
}

#[test]
fn new_executor_is_idle() {
    let mut e: Executor<&str, u32> = Executor::new();
    assert!(e.is_idle());
    assert!(matches!(e.next_step(), Step::Idle));
}

#[test]
fn spawn_hands_out_consecutive_ids() {
    let mut e: Executor<&str, u32> = Executor::new();
    assert_eq!(e.spawn("a"), Ok(TaskId(0)));
    assert_eq!(e.spawn("b"), Ok(TaskId(1)));
    assert!(!e.is_idle());
}

#[test]
fn spawned_tasks_run_in_order_without_waker() {
    let mut e: Executor<&str, u32> = Executor::new();
    e.spawn("a").unwrap();
    e.spawn("b").unwrap();
    let (id, fut, waker) = run_id(e.next_step());
    assert_eq!((id, fut, waker), (0, "a", None));
    let (id, fut, waker) = run_id(e.next_step());
    assert_eq!((id, fut, waker), (1, "b", None));
    assert!(matches!(e.next_step(), Step::Idle));
}

#[test]
fn pending_task_keeps_its_waker_and_runs_again_when_woken() {
    let mut e: Executor<&str, u32> = Executor::new();
    e.spawn("a").unwrap();
    let task = match e.next_step() {
        Step::Run(task, None) => task,
        _ => panic!("expected the new task"),
    };
    e.finish_poll(task, 99, false);
    assert!(matches!(e.next_step(), Step::Idle));
    let w = TaskWaker::new(TaskId(0), e.task_queue());
    w.wake_task().unwrap();
    let (id, fut, waker) = run_id(e.next_step());
    assert_eq!((id, fut, waker), (0, "a", Some(99)));
}

#[test]
fn finished_task_is_skipped_when_woken_again() {
    let mut e: Executor<&str, u32> = Executor::new();
    e.spawn("a").unwrap();
    let task = match e.next_step() {
        Step::Run(task, _) => task,
        _ => panic!("expected the new task"),
    };
    e.finish_poll(task, 5, true);
    let w = TaskWaker::new(TaskId(0), e.task_queue());
    w.wake_task().unwrap();
    match e.next_step() {
        Step::Skip(id) => assert_eq!(id, TaskId(0)),
        _ => panic!("expected a skip"),
    }
    assert!(matches!(e.next_step(), Step::Idle));
}

#[test]
fn dispatch_acts_on_the_given_identifier() {
    let mut e: Executor<&str, u32> = Executor::new();
    e.spawn("a").unwrap();
    e.spawn("b").unwrap();
    assert!(matches!(e.dispatch(None), Step::Idle));
    assert!(matches!(e.dispatch(Some(TaskId(5))), Step::Skip(TaskId(5))));
    let (id, fut, _) = run_id(e.dispatch(Some(TaskId(1))));
    assert_eq!((id, fut), (1, "b"));
    assert!(matches!(e.dispatch(Some(TaskId(1))), Step::Skip(TaskId(1))));
}

#[test]
fn spawn_fails_when_the_queue_is_full() {
    let mut e: Executor<usize, u32> = Executor::new();
    for i in 0..TASK_QUEUE_CAPACITY {
        assert_eq!(e.spawn(i), Ok(TaskId(i as u32)));
    }
    assert_eq!(e.spawn(1000), Err(SpawnError::QueueFull(TaskId(100))));
    // the refused task is not in the table: the next one gets a fresh id
    let (id, fut, _) = run_id(e.next_step());
    assert_eq!((id, fut), (0, 0));
    assert_eq!(e.spawn(7), Ok(TaskId(101)));
}
