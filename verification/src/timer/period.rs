//! Periodic wake-ups: a stream that yields once per period.
use vstd::prelude::*;
use core::task::Waker;
use crate::task::waker::TimerWaker;

verus! {

/// What a poll of a [`Period`] gives.
pub enum NextPeriod {
    /// A period has started: the time of the poll.
    Started(u64),
    /// The next period has not started yet: a timer for its start, with the
    /// task's waker registered.
    Wait(TimerWaker),
}

/// A stream that yields the time at the start of each period.
pub struct Period {
    period_ms: u64,
    next_start_ms: u64,
}

impl Period {
    /// The length of a period, in milliseconds.
    pub closed spec fn period(&self) -> u64 {
        self.period_ms
    }

    /// The time at which the next period starts.
    pub closed spec fn next_start(&self) -> u64 {
        self.next_start_ms
    }

    /// Periods of `period_ms` milliseconds, the first starting at `now`.
    pub fn new(now: u64, period_ms: u64) -> (p: Period)
        ensures
            p.period() == period_ms,
            p.next_start() == now,
    {
        Period { period_ms, next_start_ms: now }
    }

    /// The length of a period, in milliseconds.
    pub fn period_ms(&self) -> (ms: u64)
        ensures
            ms == self.period(),
    {
        self.period_ms
    }

    /// The time at which the next period starts.
    pub fn next_start_ms(&self) -> (ms: u64)
        ensures
            ms == self.next_start(),
    {
        self.next_start_ms
    }

    /// Advances the stream at time `now`. Once the next period has started,
    /// moves the start on by one period and yields `now`
    /// (`NextPeriod::Started`). Before that, registers `waker` in a timer for
    /// the start and returns the timer (`NextPeriod::Wait`), to be handed to
    /// the tick interrupt with
    /// [`timer_queue_push`](crate::timer::timer::timer_queue_push).
    pub fn poll_next(&mut self, now: u64, waker: &Waker) -> (r: NextPeriod)
        requires
            now >= old(self).next_start() ==> old(self).next_start() + old(self).period() <= u64::MAX,
        ensures
            final(self).period() == old(self).period(),
            final(self).next_start() == next_start_after(old(self).period(), old(self).next_start() as int, now),
            r is Started <==> now >= old(self).next_start(),
            r matches NextPeriod::Started(t) ==> t == now,
            r matches NextPeriod::Wait(timer) ==> {
                &&& timer.deadline() == old(self).next_start()
                &&& timer.registered() == Some(*waker)
                &&& timer.woken() is None
            },
    {
        if now >= self.next_start_ms {
            self.next_start_ms = self.next_start_ms + self.period_ms;
            NextPeriod::Started(now)
        } else {
            let mut timer = TimerWaker::new(self.next_start_ms);
            timer.register_waker(waker);
            NextPeriod::Wait(timer)
        }
    }
}

/// The start of the next period after a poll at `now`, when it was `next`.
pub open spec fn next_start_after(period: u64, next: int, now: u64) -> int {
    if now >= next {
        next + period
    } else {
        next
    }
}

/// The start of the next period after polls at the times `times`, from a
/// first start at `start`.
pub open spec fn start_after_polls(period: u64, start: int, times: Seq<u64>) -> int
    decreases times.len(),
{
    if times.len() == 0 {
        start
    } else {
        next_start_after(period, start_after_polls(period, start, times.drop_last()), times.last())
    }
}

/// How many of the polls at the times `times` found a period started.
pub open spec fn started_polls(period: u64, start: int, times: Seq<u64>) -> nat
    decreases times.len(),
{
    if times.len() == 0 {
        0
    } else {
        started_polls(period, start, times.drop_last())
            + if times.last() >= start_after_polls(period, start, times.drop_last()) { 1nat } else { 0nat }
    }
}

/// No drift: whatever the times of the polls, after `k` of them found a
/// period started the next start is the first start plus `k` periods. A
/// late poll does not shift the later periods.
pub proof fn lemma_period_no_drift(period: u64, start: int, times: Seq<u64>)
    ensures
        start_after_polls(period, start, times) == start + started_polls(period, start, times) * period,
    decreases times.len(),
{
    if times.len() == 0 {
        assert(0 * period == 0) by (nonlinear_arith);
    } else {
        lemma_period_no_drift(period, start, times.drop_last());
        let k = started_polls(period, start, times.drop_last());
        let prev = start_after_polls(period, start, times.drop_last());
        assert((k + 1) * period == k * period + period) by (nonlinear_arith);
        if times.last() >= prev {
            assert(start_after_polls(period, start, times) == prev + period);
            assert(started_polls(period, start, times) == k + 1);
        } else {
            assert(start_after_polls(period, start, times) == prev);
            assert(started_polls(period, start, times) == k);
        }
    }
}

} // verus!
