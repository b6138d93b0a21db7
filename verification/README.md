# usync

A future runtime for bare-metal Cortex-M devices. Verus verifies its
scheduling and timer decisions: which task runs next, what happens to a task
and its waker after a poll, which timers are due and in what order, when a
sleep is over and when a period starts, which waker a timer holds, and
that a tick pops the timer queue until it finds it empty (or the queue's
capacity is reached), places the timers it took and wakes those that are
due. The executor and the tick keep ghost records of every push and pop they
make on the shared queues; what the other parties push, and what a woken
waker then does, rest on outside code and are not stated.

- `src/` — the verified library.
  - `task/task.rs`: task identifiers (a wrapping counter) and tasks.
  - `task/executor.rs`: the table of spawned tasks, the ready queue and the
    waker cache. The executor hands out one task at a time and takes it back
    with the outcome of its poll.
  - `task/waker.rs`: the waker that puts a task back on the ready queue, and
    the timer waker the tick interrupt fires.
  - `timer/timer.rs`: the millisecond clock and the waiting timers, kept in a
    `heapless` min-heap of `(deadline, place)` pairs.
  - `timer/sleep.rs`, `timer/period.rs`: the decisions behind `Sleep` and
    `Period`; a pending poll returns the timer to hand to the interrupt.
  - `external.rs`: the outside types and the contracts of the outside calls
    (`crossbeam_queue`, `heapless`, `futures_util`).
- `app/` — the parts that poll futures, drive the SysTick peripheral and run
  the interrupt handler.
- `tests/` — tests of the library.
