//! Declarations of the outside types this crate holds, and the contracts it
//! relies on for the outside functions it calls.
use vstd::prelude::*;
use vstd::multiset::Multiset;
use crossbeam_queue::ArrayQueue;
use heapless::binary_heap::{BinaryHeap, Min};
use futures_util::task::AtomicWaker;
use core::task::Waker;
use crate::task::task::TaskId;
use crate::task::waker::TimerWaker;

verus! {

/// A bounded lock-free queue of `crossbeam_queue`, shared between the
/// executor, the wakers and the tick interrupt.
#[verifier::external_type_specification]
#[verifier::external_body]
#[verifier::reject_recursive_types(T)]
pub struct ExArrayQueue<T>(ArrayQueue<T>);

/// The min-heap ordering marker of `heapless`.
#[verifier::external_type_specification]
#[verifier::external_body]
pub struct ExMin(Min);

/// A fixed-capacity binary heap of `heapless`.
#[verifier::external_type_specification]
#[verifier::external_body]
#[verifier::reject_recursive_types(T)]
#[verifier::reject_recursive_types(K)]
pub struct ExBinaryHeap<T, K, const N: usize>(BinaryHeap<T, K, N>);

/// A cell that holds the waker of at most one task, of `futures_util`.
#[verifier::external_type_specification]
#[verifier::external_body]
pub struct ExAtomicWaker(AtomicWaker);

/// The handle by which a task asks to be polled again, of `core`.
#[verifier::external_type_specification]
#[verifier::external_body]
pub struct ExWaker(Waker);

// ---------------------------------------------------------------------------
// crossbeam_queue::ArrayQueue
//
// Every queue here is shared: wakers push onto it from task context and from
// the tick interrupt while the executor pops from it. What a call finds in
// the queue therefore depends on what the other parties did, and no clause
// below speaks of the queue's contents. Its capacity is fixed when it is
// made, and is named. Pushing and popping where the caller owns a record of
// what went in and out are methods of `Executor` and `TimerState`.
// ---------------------------------------------------------------------------

/// The number of items a ready queue was made to hold.
pub uninterp spec fn task_queue_capacity(q: ArrayQueue<TaskId>) -> usize;

/// The number of items a timer queue was made to hold.
pub uninterp spec fn timer_queue_capacity(q: ArrayQueue<TimerWaker>) -> usize;

/// `ArrayQueue::new` for a ready queue: an empty queue that holds at most
/// `cap` identifiers (`ArrayQueue::capacity` gives back `cap`). It panics
/// when `cap` is zero, which `requires` rules out.
#[verifier::external_body]
pub(crate) fn task_queue_new(cap: usize) -> (q: ArrayQueue<TaskId>)
    requires
        cap > 0,
    ensures
        task_queue_capacity(q) == cap,
{
    ArrayQueue::new(cap)
}

/// `ArrayQueue::new` for a timer queue: an empty queue that holds at most
/// `cap` timers (`ArrayQueue::capacity` gives back `cap`). It panics when
/// `cap` is zero, which `requires` rules out.
#[verifier::external_body]
pub(crate) fn timer_queue_new(cap: usize) -> (q: ArrayQueue<TimerWaker>)
    requires
        cap > 0,
    ensures
        timer_queue_capacity(q) == cap,
{
    ArrayQueue::new(cap)
}

/// `ArrayQueue::push`: appends `value`, or hands it back in `Err` when the
/// queue is full. Whether it was full is not stated (the queue is shared);
/// that a refused value is the one that was given is.
#[verifier::external_body]
pub(crate) fn queue_push<T>(queue: &ArrayQueue<T>, value: T) -> (r: Result<(), T>)
    ensures
        r matches Err(v) ==> v == value,
{
    queue.push(value)
}

/// `ArrayQueue::is_empty`: whether the queue held no item at the moment of
/// the call. The answer depends on the other parties and is not stated.
#[verifier::external_body]
pub(crate) fn queue_is_empty<T>(queue: &ArrayQueue<T>) -> bool {
    queue.is_empty()
}

// ---------------------------------------------------------------------------
// heapless::binary_heap::BinaryHeap<(u64, u64), Min, 8>
// ---------------------------------------------------------------------------

/// What a deadline heap holds: pairs `(deadline, slot)`.
pub uninterp spec fn heap_items(h: BinaryHeap<(u64, u64), Min, 8>) -> Multiset<(u64, u64)>;

/// The order of `(u64, u64)` that `Ord` on tuples defines: lexicographic.
pub open spec fn pair_le(a: (u64, u64), b: (u64, u64)) -> bool {
    a.0 < b.0 || (a.0 == b.0 && a.1 <= b.1)
}

/// `BinaryHeap::new`: an empty heap.
#[verifier::external_body]
pub(crate) fn heap_new() -> (h: BinaryHeap<(u64, u64), Min, 8>)
    ensures
        heap_items(h) =~= Multiset::empty(),
{
    BinaryHeap::new()
}

/// `BinaryHeap::push`: adds `item` when fewer than 8 items are held;
/// otherwise hands `item` back in `Err` and leaves the heap as it was.
#[verifier::external_body]
pub(crate) fn heap_push(heap: &mut BinaryHeap<(u64, u64), Min, 8>, item: (u64, u64)) -> (r: Result<(), (u64, u64)>)
    ensures
        heap_items(*old(heap)).len() < 8 ==> r is Ok && heap_items(*final(heap)) == heap_items(*old(heap)).insert(item),
        heap_items(*old(heap)).len() >= 8 ==> (r matches Err(v) && v == item) && heap_items(*final(heap)) == heap_items(*old(heap)),
{
    heap.push(item)
}

/// `BinaryHeap::peek` on a min-heap: the smallest item, or `None` when the
/// heap is empty.
#[verifier::external_body]
pub(crate) fn heap_peek(heap: &BinaryHeap<(u64, u64), Min, 8>) -> (r: Option<(u64, u64)>)
    ensures
        r is None <==> heap_items(*heap).len() == 0,
        r matches Some(x) ==> heap_items(*heap).count(x) > 0 && forall|y: (u64, u64)| #[trigger] heap_items(*heap).count(y) > 0 ==> pair_le(x, y),
{
    heap.peek().copied()
}

/// `BinaryHeap::pop` on a min-heap: removes and returns the smallest item,
/// or returns `None` and leaves the heap as it was when it is empty.
#[verifier::external_body]
pub(crate) fn heap_pop(heap: &mut BinaryHeap<(u64, u64), Min, 8>) -> (r: Option<(u64, u64)>)
    ensures
        r is None <==> heap_items(*old(heap)).len() == 0,
        r is None ==> heap_items(*final(heap)) == heap_items(*old(heap)),
        r matches Some(x) ==> {
            &&& heap_items(*old(heap)).count(x) > 0
            &&& forall|y: (u64, u64)| #[trigger] heap_items(*old(heap)).count(y) > 0 ==> pair_le(x, y)
            &&& heap_items(*final(heap)) == heap_items(*old(heap)).remove(x)
        },
{
    heap.pop()
}

// ---------------------------------------------------------------------------
// futures_util::task::AtomicWaker
//
// Registering and waking are methods of `TimerWaker`, which records them.
// ---------------------------------------------------------------------------

/// `AtomicWaker::new`: a cell with no waker registered.
#[verifier::external_body]
pub(crate) fn atomic_waker_new() -> AtomicWaker {
    AtomicWaker::new()
}

} // verus!
