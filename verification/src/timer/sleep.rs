//! Sleeping: a future that is ready once a deadline has passed.
use vstd::prelude::*;
use core::task::Waker;
use crate::task::waker::TimerWaker;

verus! {

/// Future that allows a task to yield without busy waiting.
pub struct Sleep {
    time_ms: u64,
}

impl Sleep {
    /// The time, in milliseconds since the timer started, from which the
    /// sleep is over.
    pub closed spec fn deadline(&self) -> u64 {
        self.time_ms
    }

    /// Creates a new sleep future that, started at `now`, sleeps for
    /// `duration_ms` milliseconds.
    pub fn new(now: u64, duration_ms: u64) -> (s: Sleep)
        requires
            now + duration_ms <= u64::MAX,
        ensures
            s.deadline() == now + duration_ms,
    {
        Sleep { time_ms: now + duration_ms }
    }

    /// The time from which the sleep is over.
    pub fn time_ms(&self) -> (ms: u64)
        ensures
            ms == self.deadline(),
    {
        self.time_ms
    }

    /// Advances the sleep at time `now`: `None` once the deadline has
    /// passed. Before that, registers `waker` in a timer for the deadline
    /// and returns the timer, to be handed to the tick interrupt with
    /// [`timer_queue_push`](crate::timer::timer::timer_queue_push).
    pub fn poll(&self, now: u64, waker: &Waker) -> (r: Option<TimerWaker>)
        ensures
            r is None <==> now >= self.deadline(),
            r matches Some(t) ==> t.deadline() == self.deadline() && t.registered() == Some(*waker) && t.woken() is None,
    {
        if now >= self.time_ms {
            None
        } else {
            let mut timer = TimerWaker::new(self.time_ms);
            timer.register_waker(waker);
            Some(timer)
        }
    }
}

/// Sleeps, from `now`, for `ms` milliseconds.
pub fn sleep_ms(now: u64, ms: u64) -> (s: Sleep)
    requires
        now + ms <= u64::MAX,
    ensures
        s.deadline() == now + ms,
{
    Sleep::new(now, ms)
}

/// A sleep that is over at some time stays over at every later time.
pub proof fn lemma_sleep_stays_over(s: Sleep, t1: u64, t2: u64)
    requires
        t1 <= t2,
        t1 >= s.deadline(),
    ensures
        t2 >= s.deadline(),
{
}

} // verus!
