//! The millisecond clock, and the timers that the tick interrupt wakes when
//! they are due.
use vstd::prelude::*;
use crossbeam_queue::ArrayQueue;
use heapless::binary_heap::{BinaryHeap, Min};
use crate::external::{
    heap_items, pair_le, heap_new, heap_peek, heap_pop, heap_push, timer_queue_new, timer_queue_capacity, queue_push,
};
use crate::task::waker::{TimerWaker, woken_from};

verus! {

/// How many timers can wait for their deadline at once.
pub const TIMER_HEAP_CAPACITY: usize = 8;

/// How many timers can wait to be handed to the tick interrupt at once.
pub const TIMER_QUEUE_CAPACITY: usize = 20;

/// The number of occupied places in `s`.
pub open spec fn occupied<T>(s: Seq<Option<T>>) -> nat
    decreases s.len(),
{
    if s.len() == 0 {
        0
    } else {
        occupied(s.drop_last()) + if s.last() is Some { 1nat } else { 0nat }
    }
}

proof fn lemma_occupied_bound<T>(s: Seq<Option<T>>)
    ensures
        occupied(s) <= s.len(),
    decreases s.len(),
{
    if s.len() > 0 {
        lemma_occupied_bound(s.drop_last());
    }
}

proof fn lemma_occupied_free<T>(s: Seq<Option<T>>, i: int)
    requires
        0 <= i < s.len(),
        s[i] is None,
    ensures
        occupied(s) < s.len(),
    decreases s.len(),
{
    if i == s.len() - 1 {
        lemma_occupied_bound(s.drop_last());
    } else {
        lemma_occupied_free(s.drop_last(), i);
    }
}

proof fn lemma_occupied_update<T>(s: Seq<Option<T>>, i: int, v: Option<T>)
    requires
        0 <= i < s.len(),
    ensures
        occupied(s.update(i, v)) + (if s[i] is Some { 1int } else { 0int })
            == occupied(s) + (if v is Some { 1int } else { 0int }),
    decreases s.len(),
{
    if i == s.len() - 1 {
        assert(s.update(i, v).drop_last() =~= s.drop_last());
    } else {
        assert(s.update(i, v).drop_last() =~= s.drop_last().update(i, v));
        lemma_occupied_update(s.drop_last(), i, v);
    }
}

/// The time one tick after `now`.
pub open spec fn tick(now: int) -> int {
    now + 1
}

/// The time `k` ticks after `now`.
pub open spec fn time_after_ticks(now: int, k: nat) -> int
    decreases k,
{
    if k == 0 {
        now
    } else {
        tick(time_after_ticks(now, (k - 1) as nat))
    }
}

/// The clock counts ticks: `k` ticks after `now` the time is `now + k`.
pub proof fn lemma_clock_counts_ticks(now: int, k: nat)
    ensures
        time_after_ticks(now, k) == now + k,
    decreases k,
{
    if k > 0 {
        lemma_clock_counts_ticks(now, (k - 1) as nat);
    }
}

/// The value the SysTick reload register takes so that the counter wraps
/// once per millisecond on a core clocked at `hertz`.
pub fn systick_reload(hertz: u32) -> (ticks_per_ms: u32)
    requires
        hertz >= 1000,
    ensures
        ticks_per_ms == hertz / 1000 - 1,
{
    hertz / 1000 - 1
}

/// The queue on which tasks hand timers to the tick interrupt: it holds
/// `TIMER_QUEUE_CAPACITY` timers.
pub fn new_timer_queue() -> (q: ArrayQueue<TimerWaker>)
    ensures
        timer_queue_capacity(q) == TIMER_QUEUE_CAPACITY,
{
    timer_queue_new(TIMER_QUEUE_CAPACITY)
}

/// Hands `timer` to the tick interrupt. A timer that finds the queue full is
/// dropped.
pub fn timer_queue_push(queue: &ArrayQueue<TimerWaker>, timer: TimerWaker) {
    let _ = queue_push(queue, timer);
}

/// Whether some entry of `due` is for place `k`.
pub open spec fn due_has(due: Seq<(u64, TimerWaker)>, k: u64) -> bool {
    exists|i: int| 0 <= i < due.len() && due[i].0 == k
}

/// The state of the tick interrupt: the time in milliseconds, and the
/// timers that wait for their deadline, each in one of eight places.
pub struct TimerState {
    count: u64,
    heap: BinaryHeap<(u64, u64), Min, 8>,
    slots: Vec<Option<TimerWaker>>,
    taken: Ghost<Seq<Option<TimerWaker>>>,
}

impl TimerState {
    /// Milliseconds since the timer started.
    pub closed spec fn now(&self) -> u64 {
        self.count
    }

    /// What each pop of the timer queue gave so far, in order (`None`: the
    /// queue was empty).
    pub closed spec fn taken(&self) -> Seq<Option<TimerWaker>> {
        self.taken@
    }

    /// The waiting timers, by place.
    pub closed spec fn pending(&self) -> Map<u64, TimerWaker> {
        Map::new(
            |k: u64| k < 8 && self.slots@[k as int] is Some,
            |k: u64| self.slots@[k as int].unwrap(),
        )
    }

    /// The heap holds one `(deadline, place)` pair for each waiting timer,
    /// and nothing else.
    pub closed spec fn wf(&self) -> bool {
        &&& self.slots@.len() == 8
        &&& forall|it: (u64, u64)| #[trigger] heap_items(self.heap).count(it) > 0 ==> {
            &&& it.1 < 8
            &&& self.slots@[it.1 as int] is Some
            &&& self.slots@[it.1 as int].unwrap().deadline() == it.0
        }
        &&& forall|i: int| 0 <= i < 8 && (#[trigger] self.slots@[i]) is Some ==>
            heap_items(self.heap).count((self.slots@[i].unwrap().deadline(), i as u64)) == 1
        &&& heap_items(self.heap).len() == occupied(self.slots@)
    }

    /// A timer at time 0 with no waiting timer.
    pub fn new() -> (t: TimerState)
        ensures
            t.wf(),
            t.now() == 0,
            t.pending() == Map::<u64, TimerWaker>::empty(),
            t.taken() == Seq::<Option<TimerWaker>>::empty(),
    {
        let mut slots: Vec<Option<TimerWaker>> = Vec::new();
        let mut i: usize = 0;
        while i < TIMER_HEAP_CAPACITY
            invariant
                i <= 8,
                slots@.len() == i,
                forall|j: int| 0 <= j < i ==> slots@[j] is None,
                occupied(slots@) == 0,
            decreases 8 - i,
        {
            let ghost before = slots@;
            slots.push(None);
            proof {
                assert(slots@.drop_last() =~= before);
            }
            i += 1;
        }
        let t = TimerState { count: 0, heap: heap_new(), slots, taken: Ghost(Seq::empty()) };
        assert(t.pending() =~= Map::<u64, TimerWaker>::empty());
        t
    }

    /// Milliseconds since the timer started.
    pub fn get_time_ms(&self) -> (ms: u64)
        ensures
            ms == self.now(),
    {
        self.count
    }

    /// The place of the first free place, if any.
    fn free_slot(&self) -> (r: Option<usize>)
        requires
            self.wf(),
        ensures
            r matches Some(i) ==> i < 8 && self.slots@[i as int] is None && forall|j: int| 0 <= j < i ==> self.slots@[j] is Some,
            r is None ==> forall|j: int| 0 <= j < 8 ==> self.slots@[j] is Some,
    {
        let mut i: usize = 0;
        while i < TIMER_HEAP_CAPACITY
            invariant
                self.wf(),
                i <= 8,
                forall|j: int| 0 <= j < i ==> self.slots@[j] is Some,
            decreases 8 - i,
        {
            if self.slots[i].is_none() {
                return Some(i);
            }
            i += 1;
        }
        None
    }

    /// Adds `timer` to the waiting timers, in the first free place. When all
    /// eight places are taken the timer comes back in `Err`.
    pub fn schedule(&mut self, timer: TimerWaker) -> (r: Result<u64, TimerWaker>)
        requires
            old(self).wf(),
        ensures
            final(self).wf(),
            final(self).now() == old(self).now(),
            final(self).taken() == old(self).taken(),
            r matches Ok(k) ==> {
                &&& k < 8
                &&& !old(self).pending().contains_key(k)
                &&& forall|j: u64| j < k ==> old(self).pending().contains_key(j)
                &&& final(self).pending() == old(self).pending().insert(k, timer)
            },
            r matches Err(t) ==> {
                &&& t == timer
                &&& forall|j: u64| j < 8 ==> old(self).pending().contains_key(j)
                &&& final(self).pending() == old(self).pending()
            },
    {
        match self.free_slot() {
            None => {
                proof {
                    assert forall|j: u64| j < 8 implies old(self).pending().contains_key(j) by {
                        assert(self.slots@[j as int] is Some);
                    }
                }
                Err(timer)
            },
            Some(i) => {
                let ghost s0 = self.slots@;
                let ghost h0 = heap_items(self.heap);
                let ghost p0 = self.pending();
                let item = (timer.get_time(), i as u64);
                proof {
                    lemma_occupied_free(s0, i as int);
                    assert(h0.count(item) == 0);
                }
                let pushed = heap_push(&mut self.heap, item);
                assert(pushed is Ok);
                self.slots.set(i, Some(timer));
                proof {
                    lemma_occupied_update(s0, i as int, Some(timer));
                    let h1 = heap_items(self.heap);
                    assert forall|it: (u64, u64)| #[trigger] h1.count(it) > 0 implies {
                        &&& it.1 < 8
                        &&& self.slots@[it.1 as int] is Some
                        &&& self.slots@[it.1 as int].unwrap().deadline() == it.0
                    } by {
                        if it != item {
                            assert(h0.count(it) > 0);
                        }
                    }
                    assert forall|j: int| 0 <= j < 8 && (#[trigger] self.slots@[j]) is Some implies
                        h1.count((self.slots@[j].unwrap().deadline(), j as u64)) == 1 by {
                        if j != i {
                            assert(s0[j] is Some);
                        }
                    }
                    assert(self.pending() =~= p0.insert(i as u64, timer));
                    assert forall|j: u64| j < i as u64 implies p0.contains_key(j) by {
                        assert(s0[j as int] is Some);
                    }
                }
                Ok(i as u64)
            },
        }
    }

    /// Takes every waiting timer that is due (deadline at or before now)
    /// out of the waiting timers, earliest deadline first; each comes with
    /// the place it occupied. The timers not yet due stay where they were.
    pub fn expire(&mut self) -> (due: Vec<(u64, TimerWaker)>)
        requires
            old(self).wf(),
        ensures
            final(self).wf(),
            final(self).now() == old(self).now(),
            final(self).taken() == old(self).taken(),
            forall|k: u64| #[trigger] final(self).pending().contains_key(k) <==>
                old(self).pending().contains_key(k) && old(self).pending()[k].deadline() > old(self).now(),
            forall|k: u64| #[trigger] final(self).pending().contains_key(k) ==>
                final(self).pending()[k] == old(self).pending()[k],
            forall|i: int| 0 <= i < due@.len() ==> {
                &&& old(self).pending().contains_key(#[trigger] due@[i].0)
                &&& old(self).pending()[due@[i].0] == due@[i].1
                &&& due@[i].1.deadline() <= old(self).now()
            },
            forall|k: u64| old(self).pending().contains_key(k) && old(self).pending()[k].deadline() <= old(self).now()
                ==> #[trigger] due_has(due@, k),
            forall|i: int, j: int| 0 <= i < j < due@.len() ==> (#[trigger] due@[i]).0 != (#[trigger] due@[j]).0,
            forall|i: int, j: int| 0 <= i < j < due@.len() ==>
                pair_le(((#[trigger] due@[i]).1.deadline(), due@[i].0), ((#[trigger] due@[j]).1.deadline(), due@[j].0)),
    {
        let ghost p0 = self.pending();
        let ghost now = self.count;
        let mut due: Vec<(u64, TimerWaker)> = Vec::new();
        loop
            invariant_except_break
                self.wf(),
                self.count == now,
                self.taken() == old(self).taken(),
                forall|k: u64| #[trigger] self.pending().contains_key(k) ==>
                    p0.contains_key(k) && self.pending()[k] == p0[k],
                forall|k: u64| #[trigger] p0.contains_key(k) ==> self.pending().contains_key(k) || due_has(due@, k),
                forall|i: int| 0 <= i < due@.len() ==> {
                    &&& p0.contains_key(#[trigger] due@[i].0)
                    &&& p0[due@[i].0] == due@[i].1
                    &&& due@[i].1.deadline() <= now
                    &&& !self.pending().contains_key(due@[i].0)
                },
                forall|i: int, j: int| 0 <= i < j < due@.len() ==> (#[trigger] due@[i]).0 != (#[trigger] due@[j]).0,
                forall|i: int, j: int| 0 <= i < j < due@.len() ==>
                    pair_le(((#[trigger] due@[i]).1.deadline(), due@[i].0), ((#[trigger] due@[j]).1.deadline(), due@[j].0)),
                forall|i: int, k: u64| 0 <= i < due@.len() && #[trigger] self.pending().contains_key(k) ==>
                    pair_le(((#[trigger] due@[i]).1.deadline(), due@[i].0), (self.pending()[k].deadline(), k)),
            ensures
                self.wf(),
                self.count == now,
                self.taken() == old(self).taken(),
                forall|k: u64| #[trigger] self.pending().contains_key(k) ==>
                    p0.contains_key(k) && self.pending()[k] == p0[k] && p0[k].deadline() > now,
                forall|k: u64| #[trigger] p0.contains_key(k) ==> self.pending().contains_key(k) || due_has(due@, k),
                forall|i: int| 0 <= i < due@.len() ==> {
                    &&& p0.contains_key(#[trigger] due@[i].0)
                    &&& p0[due@[i].0] == due@[i].1
                    &&& due@[i].1.deadline() <= now
                },
                forall|i: int, j: int| 0 <= i < j < due@.len() ==> (#[trigger] due@[i]).0 != (#[trigger] due@[j]).0,
                forall|i: int, j: int| 0 <= i < j < due@.len() ==>
                    pair_le(((#[trigger] due@[i]).1.deadline(), due@[i].0), ((#[trigger] due@[j]).1.deadline(), due@[j].0)),
            decreases heap_items(self.heap).len(),
        {
            let top = heap_peek(&self.heap);
            match top {
                None => {
                    proof {
                        assert forall|k: u64| #[trigger] self.pending().contains_key(k) implies false by {
                            let it = (self.slots@[k as int].unwrap().deadline(), k);
                            assert(heap_items(self.heap).count(it) == 1);
                        }
                    }
                    break;
                },
                Some(top) => {
                    if top.0 > self.count {
                        proof {
                            assert forall|k: u64| #[trigger] self.pending().contains_key(k) implies p0[k].deadline() > now by {
                                let it = (self.slots@[k as int].unwrap().deadline(), k);
                                assert(heap_items(self.heap).count(it) == 1);
                                assert(pair_le(top, it));
                            }
                        }
                        break;
                    }
                    let ghost h0 = heap_items(self.heap);
                    let ghost s0 = self.slots@;
                    let ghost q0 = self.pending();
                    let ghost d0 = due@;
                    let popped = heap_pop(&mut self.heap);
                    proof {
                        let x = popped->Some_0;
                        assert(pair_le(x, top) && pair_le(top, x));
                        assert(x == top);
                    }
                    let slot = top.1 as usize;
                    let mut taken: Option<TimerWaker> = None;
                    self.slots.set_and_swap(slot, &mut taken);
                    proof {
                        lemma_occupied_update(s0, slot as int, None);
                    }
                    match taken {
                        Some(t) => {
                            due.push((top.1, t));
                            proof {
                                let h1 = heap_items(self.heap);
                                assert(s0[slot as int] == Some(t));
                                assert(q0.contains_key(top.1));
                                assert forall|it: (u64, u64)| #[trigger] h1.count(it) > 0 implies {
                                    &&& it.1 < 8
                                    &&& self.slots@[it.1 as int] is Some
                                    &&& self.slots@[it.1 as int].unwrap().deadline() == it.0
                                } by {
                                    assert(h0.count(it) > 0);
                                    if it.1 == top.1 {
                                        assert(h0.count(it) == 1);
                                        assert(it == top);
                                    }
                                }
                                assert forall|j: int| 0 <= j < 8 && (#[trigger] self.slots@[j]) is Some implies
                                    h1.count((self.slots@[j].unwrap().deadline(), j as u64)) == 1 by {
                                    assert(s0[j] is Some);
                                    assert(j != slot);
                                }
                                assert forall|k: u64| #[trigger] self.pending().contains_key(k) implies
                                    q0.contains_key(k) && self.pending()[k] == q0[k] && k != top.1 by {}
                                assert forall|k: u64| #[trigger] p0.contains_key(k) implies
                                    self.pending().contains_key(k) || due_has(due@, k) by {
                                    if !self.pending().contains_key(k) {
                                        if q0.contains_key(k) {
                                            assert(k == top.1);
                                            assert(due@[d0.len() as int].0 == k);
                                        } else {
                                            assert(due_has(d0, k));
                                            let i = choose|i: int| 0 <= i < d0.len() && d0[i].0 == k;
                                            assert(due@[i].0 == k);
                                        }
                                    }
                                }
                                assert forall|i: int, k: u64| 0 <= i < due@.len() && #[trigger] self.pending().contains_key(k) implies
                                    pair_le(((#[trigger] due@[i]).1.deadline(), due@[i].0), (self.pending()[k].deadline(), k)) by {
                                    let it = (s0[k as int].unwrap().deadline(), k);
                                    assert(h0.count(it) == 1);
                                    if i < d0.len() {
                                        assert(q0.contains_key(k));
                                    }
                                }
                                assert forall|i: int| 0 <= i < due@.len() implies {
                                    &&& p0.contains_key(#[trigger] due@[i].0)
                                    &&& p0[due@[i].0] == due@[i].1
                                    &&& due@[i].1.deadline() <= now
                                    &&& !self.pending().contains_key(due@[i].0)
                                } by {
                                    if i < d0.len() {
                                        assert(!q0.contains_key(d0[i].0));
                                    }
                                }
                                assert forall|i: int, j: int| 0 <= i < j < due@.len() implies (#[trigger] due@[i]).0 != (#[trigger] due@[j]).0 by {
                                    if j == d0.len() {
                                        assert(!q0.contains_key(d0[i].0));
                                    }
                                }
                                assert forall|i: int, j: int| 0 <= i < j < due@.len() implies
                                    pair_le(((#[trigger] due@[i]).1.deadline(), due@[i].0), ((#[trigger] due@[j]).1.deadline(), due@[j].0)) by {
                                    if j == d0.len() {
                                        assert(q0.contains_key(top.1));
                                    }
                                }
                            }
                        },
                        None => {
                            proof {
                                assert(h0.count(top) > 0);
                            }
                        },
                    }
                },
            }
        }
        due
    }

    /// `ArrayQueue::pop` on the timer queue: takes the oldest timer off the
    /// queue, or `None` when it is empty. Which timer comes off depends on
    /// what the tasks pushed; what each pop gave is recorded in `taken`, and
    /// nothing else changes.
    #[verifier::external_body]
    fn pop_timer(&mut self, queue: &ArrayQueue<TimerWaker>) -> (r: Option<TimerWaker>)
        ensures
            final(self).taken() == old(self).taken().push(r),
            final(self).count == old(self).count,
            final(self).heap == old(self).heap,
            final(self).slots == old(self).slots,
    {
        queue.pop()
    }

    /// One millisecond tick: advances the clock, moves the timers that
    /// tasks handed over on `queue` to the waiting timers (dropping those
    /// that find all places taken), then wakes every timer that is due,
    /// earliest deadline first, and returns the woken timers with the places
    /// they occupied. The queue is popped until it is found empty, at most
    /// `TIMER_QUEUE_CAPACITY` times: nothing else runs during the tick to add
    /// more.
    pub fn sys_tick(&mut self, queue: &ArrayQueue<TimerWaker>) -> (woken: Vec<(u64, TimerWaker)>)
        requires
            old(self).wf(),
            old(self).now() < u64::MAX,
        ensures
            final(self).wf(),
            final(self).now() == tick(old(self).now() as int),
            final(self).taken().len() >= old(self).taken().len(),
            final(self).taken().subrange(0, old(self).taken().len() as int) == old(self).taken(),
            ({
                let pops = final(self).taken().skip(old(self).taken().len() as int);
                &&& pops.len() <= TIMER_QUEUE_CAPACITY
                &&& pops.len() == TIMER_QUEUE_CAPACITY || (pops.len() > 0 && pops.last() is None)
                &&& forall|i: int| 0 <= i < pops.len() - 1 ==> (#[trigger] pops[i]) is Some
            }),
            ({
                let mid = schedule_all(old(self).pending(), final(self).taken().skip(old(self).taken().len() as int)).0;
                let now = final(self).now();
                &&& forall|k: u64| #[trigger] final(self).pending().contains_key(k) <==>
                    mid.contains_key(k) && mid[k].deadline() > now
                &&& forall|k: u64| #[trigger] final(self).pending().contains_key(k) ==> final(self).pending()[k] == mid[k]
                &&& forall|i: int| 0 <= i < woken@.len() ==> {
                    &&& mid.contains_key(#[trigger] woken@[i].0)
                    &&& woken_from(woken@[i].1, mid[woken@[i].0])
                    &&& woken@[i].1.deadline() <= now
                }
                &&& forall|k: u64| mid.contains_key(k) && mid[k].deadline() <= now ==> #[trigger] due_has(woken@, k)
            }),
            forall|i: int, j: int| 0 <= i < j < woken@.len() ==> (#[trigger] woken@[i]).0 != (#[trigger] woken@[j]).0,
            forall|i: int, j: int| 0 <= i < j < woken@.len() ==>
                pair_le(((#[trigger] woken@[i]).1.deadline(), woken@[i].0), ((#[trigger] woken@[j]).1.deadline(), woken@[j].0)),
    {
        self.count = self.count + 1;
        let ghost p0 = self.pending();
        let ghost l0 = self.taken().len();
        let mut n: usize = 0;
        let mut emptied = false;
        while n < TIMER_QUEUE_CAPACITY && !emptied
            invariant
                self.wf(),
                self.count == old(self).now() + 1,
                p0 == old(self).pending(),
                l0 == old(self).taken().len(),
                n <= TIMER_QUEUE_CAPACITY,
                self.taken().len() == l0 + n,
                self.taken().subrange(0, l0 as int) == old(self).taken(),
                self.pending() == schedule_all(p0, self.taken().skip(l0 as int)).0,
                emptied ==> n > 0 && self.taken().last() is None,
                forall|i: int| l0 <= i < l0 + n && !(emptied && i == l0 + n - 1) ==> (#[trigger] self.taken()[i]) is Some,
            decreases TIMER_QUEUE_CAPACITY - n,
        {
            let ghost before = self.pending();
            let ghost t0 = self.taken();
            let popped = self.pop_timer(queue);
            proof {
                let t1 = self.taken();
                assert(t1.skip(l0 as int) =~= t0.skip(l0 as int).push(popped));
                assert(t1.skip(l0 as int).drop_last() =~= t0.skip(l0 as int));
                assert(t1.subrange(0, l0 as int) =~= t0.subrange(0, l0 as int));
            }
            match popped {
                None => {
                    assert(self.pending() =~= before);
                    emptied = true;
                },
                Some(timer) => {
                    assert(self.pending() =~= before);
                    assert(self.wf());
                    let r = self.schedule(timer);
                    proof {
                        match r {
                            Ok(k) => {
                                lemma_first_free_found(before, 0, k);
                            },
                            Err(_) => {
                                lemma_first_free_none(before, 0);
                            },
                        }
                    }
                },
            }
            n += 1;
        }
        proof {
            let pops = self.taken().skip(l0 as int);
            assert forall|i: int| 0 <= i < pops.len() - 1 implies (#[trigger] pops[i]) is Some by {
                assert(pops[i] == self.taken()[l0 + i]);
            }
        }
        let ghost mid = self.pending();
        let due = self.expire();
        let woken = wake_all(due);
        proof {
            assert forall|k: u64| mid.contains_key(k) && mid[k].deadline() <= self.count implies #[trigger] due_has(woken@, k) by {
                assert(due_has(due@, k));
                let i = choose|i: int| 0 <= i < due@.len() && due@[i].0 == k;
                assert(woken@[i].0 == k);
            }
        }
        woken
    }
}

/// Wakes each timer of `due`, in order.
fn wake_all(due: Vec<(u64, TimerWaker)>) -> (woken: Vec<(u64, TimerWaker)>)
    ensures
        woken@.len() == due@.len(),
        forall|i: int| 0 <= i < due@.len() ==> (#[trigger] woken@[i]).0 == due@[i].0 && woken_from(woken@[i].1, due@[i].1),
{
    let ghost due0 = due@;
    let mut due = due;
    let mut woken: Vec<(u64, TimerWaker)> = Vec::new();
    while due.len() > 0
        invariant
            woken@.len() + due@.len() == due0.len(),
            due@ == due0.skip(woken@.len() as int),
            forall|i: int| 0 <= i < woken@.len() ==> (#[trigger] woken@[i]).0 == due0[i].0 && woken_from(woken@[i].1, due0[i].1),
        decreases due@.len(),
    {
        let ghost w0 = woken@.len();
        let (k, mut t) = due.remove(0);
        t.wake();
        woken.push((k, t));
        assert(due@ =~= due0.skip(woken@.len() as int));
    }
    woken
}

/// The place the next timer takes among the places `i..8`: the first free
/// one, if any.
pub open spec fn first_free_from(p: Map<u64, TimerWaker>, i: nat) -> Option<u64>
    decreases 8 - i,
{
    if i >= 8 {
        None
    } else if !p.contains_key(i as u64) {
        Some(i as u64)
    } else {
        first_free_from(p, i + 1)
    }
}

/// How many of the places `i..8` are taken.
pub open spec fn taken_places(p: Map<u64, TimerWaker>, i: nat) -> nat
    decreases 8 - i,
{
    if i >= 8 {
        0
    } else {
        (if p.contains_key(i as u64) { 1nat } else { 0nat }) + taken_places(p, i + 1)
    }
}

/// The waiting timers after the pops `t` of the timer queue handed their
/// timers over one after another to waiting timers `p` (a `None` hands over
/// nothing), and the timers dropped because all places were taken: each
/// timer takes the first free place.
pub open spec fn schedule_all(p: Map<u64, TimerWaker>, t: Seq<Option<TimerWaker>>) -> (Map<u64, TimerWaker>, Seq<TimerWaker>)
    decreases t.len(),
{
    if t.len() == 0 {
        (p, Seq::empty())
    } else {
        let r = schedule_all(p, t.drop_last());
        match t.last() {
            None => r,
            Some(timer) => match first_free_from(r.0, 0) {
                Some(k) => (r.0.insert(k, timer), r.1),
                None => (r.0, r.1.push(timer)),
            },
        }
    }
}

/// How many of the pops `t` gave a timer.
pub open spec fn timers_in(t: Seq<Option<TimerWaker>>) -> nat
    decreases t.len(),
{
    if t.len() == 0 {
        0
    } else {
        timers_in(t.drop_last()) + if t.last() is Some { 1nat } else { 0nat }
    }
}

proof fn lemma_first_free_found(p: Map<u64, TimerWaker>, i: nat, k: u64)
    requires
        i <= k < 8,
        !p.contains_key(k),
        forall|j: u64| i <= j < k ==> p.contains_key(j),
    ensures
        first_free_from(p, i) == Some(k),
    decreases k - i,
{
    if i < k {
        assert(p.contains_key(i as u64));
        lemma_first_free_found(p, i + 1, k);
    }
}

proof fn lemma_first_free_none(p: Map<u64, TimerWaker>, i: nat)
    requires
        forall|j: u64| j < 8 ==> p.contains_key(j),
    ensures
        first_free_from(p, i) is None,
    decreases 8 - i,
{
    if i < 8 {
        assert(p.contains_key(i as u64));
        lemma_first_free_none(p, i + 1);
    }
}

proof fn lemma_free_place(p: Map<u64, TimerWaker>, i: nat)
    requires
        i <= 8,
        taken_places(p, i) < 8 - i,
    ensures
        first_free_from(p, i) matches Some(k) && i <= k < 8 && !p.contains_key(k),
    decreases 8 - i,
{
    if i < 8 && p.contains_key(i as u64) {
        lemma_free_place(p, i + 1);
    }
}

proof fn lemma_taken_places_insert(p: Map<u64, TimerWaker>, i: nat, k: u64, v: TimerWaker)
    requires
        k < 8,
        !p.contains_key(k),
    ensures
        taken_places(p.insert(k, v), i) == taken_places(p, i) + (if i <= k { 1nat } else { 0nat }),
    decreases 8 - i,
{
    if i < 8 {
        lemma_taken_places_insert(p, i + 1, k, v);
    }
}

/// No timer is dropped while the places suffice: when the waiting timers
/// and the timers handed over number at most eight, every timer handed over
/// gets a place.
pub proof fn lemma_no_timer_dropped(p: Map<u64, TimerWaker>, t: Seq<Option<TimerWaker>>)
    requires
        taken_places(p, 0) + timers_in(t) <= 8,
    ensures
        schedule_all(p, t).1.len() == 0,
        taken_places(schedule_all(p, t).0, 0) == taken_places(p, 0) + timers_in(t),
    decreases t.len(),
{
    if t.len() > 0 {
        lemma_no_timer_dropped(p, t.drop_last());
        if let Some(timer) = t.last() {
            let q = schedule_all(p, t.drop_last()).0;
            lemma_free_place(q, 0);
            let k = first_free_from(q, 0)->Some_0;
            lemma_taken_places_insert(q, 0, k, timer);
        }
    }
}

} // verus!
