use usync::task::waker::TimerWaker;
use usync::timer::period::{NextPeriod, Period};
use usync::timer::sleep::{sleep_ms, Sleep};
use usync::timer::timer::{new_timer_queue, systick_reload, timer_queue_push, TimerState};
use futures_util::task::noop_waker;
use std::sync::atomic::{AtomicUsize, Ordering};
use std::sync::Arc;
use std::task::{Wake, Waker};

/// A waker that counts how often it was woken.
struct Counter(AtomicUsize);

impl Wake for Counter {
    fn wake(self: Arc<Self>) {
        self.0.fetch_add(1, Ordering::SeqCst);
    }
}

fn counting_waker() -> (Arc<Counter>, Waker) {
    let counter = Arc::new(Counter(AtomicUsize::new(0)));
    (counter.clone(), Waker::from(counter))
}

#[test]
fn reload_value_for_common_clocks() {
    assert_eq!(systick_reload(84_000_000), 83_999);
    assert_eq!(systick_reload(168_000_000), 167_999);
    assert_eq!(systick_reload(1000), 0);
    assert_eq!(systick_reload(1999), 0);
}

#[test]
fn timer_state_starts_at_zero() {
    let t = TimerState::new();
    assert_eq!(t.get_time_ms(), 0);
}

#[test]
fn schedule_takes_the_first_free_place() {
    let mut t = TimerState::new();
    for i in 0..8u64 {
        assert!(matches!(t.schedule(TimerWaker::new(10 + i)), Ok(k) if k == i));
    }
    match t.schedule(TimerWaker::new(1)) {
        Err(back) => assert_eq!(back.get_time(), 1),
        Ok(_) => panic!("all places are taken"),
    }
}

#[test]
fn expire_takes_only_due_timers_earliest_first() {
    let mut t = TimerState::new();
    assert!(t.schedule(TimerWaker::new(0)).is_ok());
    assert!(t.schedule(TimerWaker::new(5)).is_ok());
    assert!(t.schedule(TimerWaker::new(0)).is_ok());
    let due = t.expire();
    let places: Vec<u64> = due.iter().map(|(k, _)| *k).collect();
    assert_eq!(places, vec![0, 2]);
    assert!(due.iter().all(|(_, w)| w.get_time() == 0));
    assert!(t.expire().is_empty());
    // the freed places are reused
    assert!(matches!(t.schedule(TimerWaker::new(9)), Ok(0)));
}

#[test]
fn sys_tick_advances_the_clock_and_wakes_due_timers() {
    let queue = new_timer_queue();
    let mut t = TimerState::new();
    let mut counters = Vec::new();
    for ms in [3u64, 1, 2, 1] {
        let (counter, waker) = counting_waker();
        let mut timer = TimerWaker::new(ms);
        timer.register_waker(&waker);
        timer_queue_push(&queue, timer);
        counters.push(counter);
    }
    let woken = |c: &Vec<Arc<Counter>>| -> Vec<usize> { c.iter().map(|x| x.0.load(Ordering::SeqCst)).collect() };
    t.sys_tick(&queue);
    assert_eq!(t.get_time_ms(), 1);
    assert!(queue.is_empty());
    // the two timers due at 1 were woken; those due at 2 and 3 wait
    assert_eq!(woken(&counters), vec![0, 1, 0, 1]);
    assert!(t.expire().is_empty());
    t.sys_tick(&queue);
    assert_eq!(t.get_time_ms(), 2);
    assert_eq!(woken(&counters), vec![0, 1, 1, 1]);
    t.sys_tick(&queue);
    assert_eq!(t.get_time_ms(), 3);
    assert_eq!(woken(&counters), vec![1, 1, 1, 1]);
    for _ in 0..8 {
        assert!(t.schedule(TimerWaker::new(100)).is_ok());
    }
    t.sys_tick(&queue);
    assert_eq!(woken(&counters), vec![1, 1, 1, 1]);
}

#[test]
fn timers_beyond_eight_are_dropped() {
    let queue = new_timer_queue();
    let mut t = TimerState::new();
    for _ in 0..10 {
        timer_queue_push(&queue, TimerWaker::new(50));
    }
    t.sys_tick(&queue);
    assert!(queue.is_empty());
    assert!(t.schedule(TimerWaker::new(60)).is_err());
}

#[test]
fn timer_queue_holds_twenty() {
    let queue = new_timer_queue();
    for _ in 0..25 {
        timer_queue_push(&queue, TimerWaker::new(1));
    }
    assert_eq!(queue.len(), 20);
}

#[test]
fn sleep_is_over_at_its_deadline() {
    let s = Sleep::new(5, 10);
    assert_eq!(s.time_ms(), 15);
    let waker = noop_waker();
    let timer = s.poll(14, &waker).expect("not over before the deadline");
    assert_eq!(timer.get_time(), 15);
    assert!(s.poll(15, &waker).is_none());
    assert!(s.poll(100, &waker).is_none());
}

#[test]
fn sleep_timer_wakes_the_polling_task() {
    let s = sleep_ms(0, 2);
    let (counter, waker) = counting_waker();
    let queue = new_timer_queue();
    let mut t = TimerState::new();
    timer_queue_push(&queue, s.poll(t.get_time_ms(), &waker).unwrap());
    t.sys_tick(&queue);
    assert_eq!(counter.0.load(Ordering::SeqCst), 0);
    t.sys_tick(&queue);
    assert_eq!(counter.0.load(Ordering::SeqCst), 1);
    assert!(s.poll(t.get_time_ms(), &waker).is_none());
}

#[test]
fn zero_sleep_is_over_at_once() {
    let s = sleep_ms(7, 0);
    assert!(s.poll(7, &noop_waker()).is_none());
}

#[test]
fn period_fires_once_per_period() {
    let mut p = Period::new(10, 50);
    let waker = noop_waker();
    assert!(matches!(p.poll_next(10, &waker), NextPeriod::Started(10)));
    assert_eq!(p.next_start_ms(), 60);
    match p.poll_next(30, &waker) {
        NextPeriod::Wait(timer) => assert_eq!(timer.get_time(), 60),
        NextPeriod::Started(_) => panic!("the period has not started"),
    }
    assert_eq!(p.next_start_ms(), 60);
    assert!(matches!(p.poll_next(61, &waker), NextPeriod::Started(61)));
    assert_eq!(p.next_start_ms(), 110);
    assert_eq!(p.period_ms(), 50);
}

#[test]
fn late_polls_do_not_shift_periods() {
    let mut p = Period::new(0, 10);
    let waker = noop_waker();
    // three polls, each long after its period started
    assert!(matches!(p.poll_next(25, &waker), NextPeriod::Started(25)));
    assert!(matches!(p.poll_next(26, &waker), NextPeriod::Started(26)));
    assert!(matches!(p.poll_next(27, &waker), NextPeriod::Started(27)));
    assert_eq!(p.next_start_ms(), 30);
    assert!(matches!(p.poll_next(28, &waker), NextPeriod::Wait(_)));
    assert_eq!(p.next_start_ms(), 30);
}

#[test]
fn clock_counts_ticks() {
    let queue = new_timer_queue();
    let mut t = TimerState::new();
    for k in 1..=50u64 {
        t.sys_tick(&queue);
        assert_eq!(t.get_time_ms(), k);
    }
}

#[test]
fn sys_tick_returns_the_woken_timers_in_deadline_order() {
    let queue = new_timer_queue();
    let mut t = TimerState::new();
    for ms in [1u64, 5, 0, 1] {
        timer_queue_push(&queue, TimerWaker::new(ms));
    }
    let woken = t.sys_tick(&queue);
    let got: Vec<(u64, u64)> = woken.iter().map(|(k, w)| (*k, w.get_time())).collect();
    assert_eq!(got, vec![(2, 0), (0, 1), (3, 1)]);
    // the timer due at 5 still holds place 1; the freed places are reused
    assert!(matches!(t.schedule(TimerWaker::new(9)), Ok(0)));
    assert!(matches!(t.schedule(TimerWaker::new(9)), Ok(2)));
}

#[test]
fn no_timer_is_lost_while_places_suffice() {
    let queue = new_timer_queue();
    let mut t = TimerState::new();
    for _ in 0..3 {
        assert!(t.schedule(TimerWaker::new(100)).is_ok());
    }
    for _ in 0..5 {
        timer_queue_push(&queue, TimerWaker::new(100));
    }
    assert!(t.sys_tick(&queue).is_empty());
    // all eight places are taken now
    assert!(t.schedule(TimerWaker::new(100)).is_err());
}
