//! Wakers: the one a task hands to the futures it polls, and the one the
//! tick interrupt fires when a timer is due.
use vstd::prelude::*;
use std::sync::Arc;
use core::cmp::Ordering;
use core::task::Waker;
use crossbeam_queue::ArrayQueue;
use futures_util::task::AtomicWaker;
use crate::external::{queue_push, atomic_waker_new};
use crate::task::task::TaskId;

verus! {

/// Puts a task back on the executor's queue when it is woken.
pub struct TaskWaker {
    pub task_id: TaskId,
    pub task_queue: Arc<ArrayQueue<TaskId>>,
}

impl TaskWaker {
    /// A waker for task `task_id` that reports to `task_queue`.
    pub fn new(task_id: TaskId, task_queue: Arc<ArrayQueue<TaskId>>) -> (w: TaskWaker)
        ensures
            w.task_id == task_id,
            w.task_queue == task_queue,
    {
        TaskWaker { task_id, task_queue }
    }

    /// Pushes the identifier of the woken task onto the queue. When the queue is full
    /// the identifier comes back in `Err`.
    pub fn wake_task(&self) -> (r: Result<(), TaskId>)
        ensures
            r matches Err(id) ==> id == self.task_id,
    {
        queue_push(&*self.task_queue, self.task_id)
    }
}

/// A waker that is due at a given time, in milliseconds since the timer
/// started.
pub struct TimerWaker {
    ms: u64,
    waker: AtomicWaker,
    registered: Ghost<Option<Waker>>,
    woken: Ghost<Option<Waker>>,
}

impl TimerWaker {
    /// The time at which this timer is due.
    pub closed spec fn deadline(&self) -> u64 {
        self.ms
    }

    /// The waker last registered and not woken since (the cell holds it, or
    /// a waker of the same task), or `None`.
    pub closed spec fn registered(&self) -> Option<Waker> {
        self.registered@
    }

    /// The waker that [`TimerWaker::wake`] took out of the cell and woke, or
    /// `None` when it has not woken one.
    pub closed spec fn woken(&self) -> Option<Waker> {
        self.woken@
    }

    /// A timer due at `ms`, with no waker registered yet.
    pub fn new(ms: u64) -> (t: TimerWaker)
        ensures
            t.deadline() == ms,
            t.registered() is None,
            t.woken() is None,
    {
        TimerWaker { ms, waker: atomic_waker_new(), registered: Ghost(None), woken: Ghost(None) }
    }

    /// `AtomicWaker::register`: registers `waker` as the waker that
    /// [`TimerWaker::wake`] will wake. With the cell held exclusively no wake
    /// runs concurrently, and the cell keeps a clone of `waker` (or its
    /// current waker when that one wakes the same task).
    #[verifier::external_body]
    pub fn register_waker(&mut self, waker: &Waker)
        ensures
            final(self).registered() == Some(*waker),
            final(self).woken() == old(self).woken(),
            final(self).deadline() == old(self).deadline(),
    {
        self.waker.register(waker)
    }

    /// `AtomicWaker::wake`: takes the registered waker out of the cell and
    /// wakes it, if there is one. Waking runs the waker's own code, whose
    /// effect is not stated.
    #[verifier::external_body]
    pub fn wake(&mut self)
        ensures
            final(self).woken() == old(self).registered(),
            final(self).registered() is None,
            final(self).deadline() == old(self).deadline(),
    {
        self.waker.wake()
    }

    /// The time at which this timer is due.
    pub fn get_time(&self) -> (ms: u64)
        ensures
            ms == self.deadline(),
    {
        self.ms
    }
}

/// Timers compare by the time at which they are due.
impl PartialEq for TimerWaker {
    fn eq(&self, other: &Self) -> (r: bool) {
        self.ms == other.ms
    }
}

impl vstd::std_specs::cmp::PartialEqSpecImpl for TimerWaker {
    open spec fn obeys_eq_spec() -> bool {
        true
    }

    open spec fn eq_spec(&self, other: &Self) -> bool {
        self.deadline() == other.deadline()
    }
}

impl Eq for TimerWaker {
}

/// Timers are ordered by the time at which they are due: the earlier one
/// is the smaller.
impl PartialOrd for TimerWaker {
    fn partial_cmp(&self, other: &Self) -> (r: Option<Ordering>) {
        if self.ms < other.ms {
            Some(Ordering::Less)
        } else if self.ms == other.ms {
            Some(Ordering::Equal)
        } else {
            Some(Ordering::Greater)
        }
    }
}

impl vstd::std_specs::cmp::PartialOrdSpecImpl for TimerWaker {
    open spec fn obeys_partial_cmp_spec() -> bool {
        true
    }

    open spec fn partial_cmp_spec(&self, other: &Self) -> Option<Ordering> {
        if self.deadline() < other.deadline() {
            Some(Ordering::Less)
        } else if self.deadline() == other.deadline() {
            Some(Ordering::Equal)
        } else {
            Some(Ordering::Greater)
        }
    }
}

/// `woken` is timer `before` after [`TimerWaker::wake`]: same deadline, its
/// registered waker woken and taken out.
pub open spec fn woken_from(woken: TimerWaker, before: TimerWaker) -> bool {
    &&& woken.deadline() == before.deadline()
    &&& woken.woken() == before.registered()
    &&& woken.registered() is None
}

} // verus!
