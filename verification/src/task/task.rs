//! Root-level tasks and the identifiers that tell them apart.
use vstd::prelude::*;

verus! {

/// Unsigned 32-bit integer that names a task.
#[derive(Debug, Clone, Copy, PartialEq, Eq, Structural, PartialOrd, Ord, Hash)]
pub struct TaskId(pub u32);

/// The identifier that follows `n`: one more, wrapping to 0 after
/// `u32::MAX`, as an atomic fetch-and-add does.
pub open spec fn next_task_id(n: u32) -> u32 {
    if n == u32::MAX { 0 } else { (n + 1) as u32 }
}

/// The `k`-th identifier handed out by an allocator that starts at `start`.
pub open spec fn nth_task_id(start: u32, k: nat) -> u32 {
    ((start + k) % 0x1_0000_0000) as u32
}

/// Hands out task identifiers in increasing order, wrapping around after
/// `u32::MAX`.
pub struct TaskIdAllocator {
    next: u32,
}

impl TaskIdAllocator {
    /// The identifier the next call of [`TaskId::new`] hands out.
    pub closed spec fn next_id(&self) -> u32 {
        self.next
    }

    /// An allocator whose first identifier is 0.
    pub fn new() -> (ids: TaskIdAllocator)
        ensures
            ids.next_id() == 0,
    {
        TaskIdAllocator { next: 0 }
    }

    /// The identifier the next call of [`TaskId::new`] hands out.
    pub fn peek(&self) -> (n: u32)
        ensures
            n == self.next_id(),
    {
        self.next
    }
}

impl TaskId {
    /// Creates a new task identifier. Identifiers come from a counter that
    /// is incremented by one on each call, so `2^32` consecutive calls hand
    /// out distinct identifiers.
    pub fn new(ids: &mut TaskIdAllocator) -> (id: TaskId)
        ensures
            id.0 == old(ids).next_id(),
            final(ids).next_id() == next_task_id(old(ids).next_id()),
    {
        let id = ids.next;
        ids.next = if ids.next == u32::MAX { 0 } else { ids.next + 1 };
        TaskId(id)
    }

    /// The integer behind this identifier.
    pub fn value(&self) -> (n: u32)
        ensures
            n == self.0,
    {
        self.0
    }
}

/// Identifiers handed out one after another follow `nth_task_id`.
pub proof fn lemma_next_is_nth(start: u32, k: nat)
    ensures
        next_task_id(nth_task_id(start, k)) == nth_task_id(start, k + 1),
{
    let m: int = 0x1_0000_0000;
    let a: int = start + k;
    assert(0 <= a % m < m) by (nonlinear_arith) requires m > 0;
    assert((a + 1) % m == if a % m == m - 1 { 0 } else { a % m + 1 }) by (nonlinear_arith)
        requires m > 0, 0 <= a;
}

/// Any `2^32` consecutive identifiers of one allocator are distinct.
pub proof fn lemma_task_ids_distinct(start: u32, i: nat, j: nat)
    requires
        i < j < 0x1_0000_0000,
    ensures
        nth_task_id(start, i) != nth_task_id(start, j),
{
    let m: int = 0x1_0000_0000;
    let a: int = start + i;
    let b: int = start + j;
    assert(a % m != b % m) by (nonlinear_arith)
        requires m > 0, 0 <= a < b, b - a < m;
}

/// Future that allows the executor to keep track of root level tasks.
pub struct Task<F> {
    pub id: TaskId,
    pub future: F,
}

impl<F> Task<F> {
    /// Creates a new task with the next identifier of `ids`.
    pub fn new(ids: &mut TaskIdAllocator, future: F) -> (task: Task<F>)
        ensures
            task.id.0 == old(ids).next_id(),
            task.future == future,
            final(ids).next_id() == next_task_id(old(ids).next_id()),
    {
        Task { id: TaskId::new(ids), future }
    }

    /// Returns the identifier of the task.
    pub fn get_id(&self) -> (id: TaskId)
        ensures
            id == self.id,
    {
        self.id
    }
}

} // verus!
