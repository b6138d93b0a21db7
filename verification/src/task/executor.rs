//! The executor: the table of spawned tasks, the queue of tasks that are
//! ready to make progress, and the wakers handed to them.
//!
//! Polling a task's future is work that this crate does not do: the
//! executor hands out one task at a time ([`Executor::next_step`]), the
//! caller polls it with its waker, and gives it back with the outcome
//! ([`Executor::finish_poll`]).
use vstd::prelude::*;
use std::collections::BTreeMap;
use std::sync::Arc;
use crossbeam_queue::ArrayQueue;
use crate::external::{task_queue_new, task_queue_capacity, queue_is_empty};
use crate::task::task::{Task, TaskId, TaskIdAllocator, next_task_id};

verus! {

broadcast use vstd::std_specs::btree::group_btree_axioms;

/// How many task identifiers the ready queue holds at once.
pub const TASK_QUEUE_CAPACITY: usize = 100;

/// Why a task could not be spawned.
#[derive(Debug, Clone, Copy, PartialEq, Eq, Structural)]
pub enum SpawnError {
    /// A task with the same identifier is still in the table.
    DuplicateId(TaskId),
    /// The ready queue had no room for the new task.
    QueueFull(TaskId),
}

/// What the executor does with the next identifier from the ready queue.
pub enum Step<F, W> {
    /// The queue was empty: there is no work to be done.
    Idle,
    /// The identifier names no task (the task has finished): nothing to do.
    Skip(TaskId),
    /// Poll the task, with its cached waker if it has one (`None`: make a
    /// waker for it). The task is out of the table until it is handed back
    /// with [`Executor::finish_poll`].
    Run(Task<F>, Option<W>),
}

/// The abstract state of an executor.
pub struct ExecutorView<F, W> {
    /// The spawned tasks that have not finished, by identifier.
    pub tasks: Map<u32, Task<F>>,
    /// The wakers made for tasks, by identifier.
    pub wakers: Map<u32, W>,
    /// The identifier the next spawned task gets.
    pub next_id: u32,
    /// How many identifiers have been handed out.
    pub issued: nat,
}

impl<F, W> ExecutorView<F, W> {
    /// Every task is filed under its own identifier, and a waker is only
    /// cached for a task that is in the table. Until the identifiers wrap
    /// around, the next identifier is the number handed out so far, and every
    /// task in the table has an earlier one.
    pub open spec fn wf(self) -> bool {
        &&& forall|k: u32| #[trigger] self.tasks.contains_key(k) ==> self.tasks[k].id.0 == k
        &&& forall|k: u32| #[trigger] self.wakers.contains_key(k) ==> self.tasks.contains_key(k)
        &&& self.issued < 0x1_0000_0000 ==> self.next_id == self.issued
        &&& self.issued < 0x1_0000_0000 ==> forall|k: u32| #[trigger] self.tasks.contains_key(k) ==> k < self.issued
    }

    /// The waker cached for task `k`, if any.
    pub open spec fn cached_waker(self, k: u32) -> Option<W> {
        if self.wakers.contains_key(k) {
            Some(self.wakers[k])
        } else {
            None
        }
    }

    /// The state after `future` is spawned as a new task.
    pub open spec fn after_spawn(self, future: F) -> Self {
        ExecutorView {
            tasks: self.tasks.insert(self.next_id, Task { id: TaskId(self.next_id), future }),
            wakers: self.wakers,
            next_id: next_task_id(self.next_id),
            issued: self.issued + 1,
        }
    }

    /// The state and the step after `popped` came off the ready queue.
    pub open spec fn after_pop(self, popped: Option<TaskId>) -> (Self, Step<F, W>) {
        match popped {
            None => (self, Step::Idle),
            Some(id) => if self.tasks.contains_key(id.0) {
                (
                    ExecutorView {
                        tasks: self.tasks.remove(id.0),
                        wakers: self.wakers.remove(id.0),
                        next_id: self.next_id,
                        issued: self.issued,
                    },
                    Step::Run(self.tasks[id.0], self.cached_waker(id.0)),
                )
            } else {
                (self, Step::Skip(id))
            },
        }
    }

    /// The state after `task` was polled with `waker`: a task that is done
    /// leaves with its waker; one that is not goes back into the table with
    /// its waker cached.
    pub open spec fn after_poll(self, task: Task<F>, waker: W, done: bool) -> Self {
        if done {
            self
        } else {
            ExecutorView {
                tasks: self.tasks.insert(task.id.0, task),
                wakers: self.wakers.insert(task.id.0, waker),
                next_id: self.next_id,
                issued: self.issued,
            }
        }
    }
}

/// Executor for all spawned tasks.
pub struct Executor<F, W> {
    tasks: BTreeMap<u32, Task<F>>,
    task_queue: Arc<ArrayQueue<TaskId>>,
    waker_cache: BTreeMap<u32, W>,
    ids: TaskIdAllocator,
    attempts: Ghost<Seq<(TaskId, bool)>>,
    popped: Ghost<Seq<Option<TaskId>>>,
    issued: Ghost<nat>,
}

impl<F, W> View for Executor<F, W> {
    type V = ExecutorView<F, W>;

    closed spec fn view(&self) -> ExecutorView<F, W> {
        ExecutorView { tasks: self.tasks@, wakers: self.waker_cache@, next_id: self.ids.next_id(), issued: self.issued@ }
    }
}

impl<F, W> Executor<F, W> {
    /// The ready queue, shared with the wakers of the tasks.
    pub closed spec fn shared_queue(&self) -> Arc<ArrayQueue<TaskId>> {
        self.task_queue
    }

    /// The identifiers the executor tried to push onto the ready queue, in
    /// order, each with whether the queue took it. The wakers push onto it
    /// too; those are not recorded here.
    pub closed spec fn attempts(&self) -> Seq<(TaskId, bool)> {
        self.attempts@
    }

    /// What the executor took off the ready queue, in order (`None`: the
    /// queue was empty).
    pub closed spec fn popped(&self) -> Seq<Option<TaskId>> {
        self.popped@
    }

    /// `ArrayQueue::push` on the ready queue: appends `id`, or hands it back
    /// in `Err` when the queue is full. Whether it was full depends on what
    /// the wakers pushed; each attempt is recorded in `attempts`, with its
    /// outcome, and nothing else changes.
    #[verifier::external_body]
    fn push_ready(&mut self, id: TaskId) -> (r: Result<(), TaskId>)
        ensures
            r matches Err(v) ==> v == id,
            final(self).attempts() == old(self).attempts().push((id, r is Ok)),
            final(self).popped() == old(self).popped(),
            final(self).issued == old(self).issued,
            final(self).tasks == old(self).tasks,
            final(self).waker_cache == old(self).waker_cache,
            final(self).ids == old(self).ids,
            final(self).task_queue == old(self).task_queue,
    {
        self.task_queue.push(id)
    }

    /// `ArrayQueue::pop` on the ready queue: takes the oldest identifier,
    /// or `None` when the queue is empty. Which one comes off depends on what
    /// the wakers pushed; what comes off is recorded in `popped`, and nothing
    /// else changes.
    #[verifier::external_body]
    fn pop_ready(&mut self) -> (r: Option<TaskId>)
        ensures
            final(self).popped() == old(self).popped().push(r),
            final(self).attempts() == old(self).attempts(),
            final(self).issued == old(self).issued,
            final(self).tasks == old(self).tasks,
            final(self).waker_cache == old(self).waker_cache,
            final(self).ids == old(self).ids,
            final(self).task_queue == old(self).task_queue,
    {
        self.task_queue.pop()
    }

    /// How many identifiers the ready queue holds at once.
    pub closed spec fn queue_capacity(&self) -> usize {
        task_queue_capacity(*self.task_queue)
    }

    /// Creates a new executor with no task, whose first task gets
    /// identifier 0.
    pub fn new() -> (e: Self)
        ensures
            e@.wf(),
            e@.tasks == Map::<u32, Task<F>>::empty(),
            e@.wakers == Map::<u32, W>::empty(),
            e@.next_id == 0,
            e.queue_capacity() == TASK_QUEUE_CAPACITY,
            e@.issued == 0,
            e.attempts() == Seq::<(TaskId, bool)>::empty(),
            e.popped() == Seq::<Option<TaskId>>::empty(),
    {
        Executor {
            tasks: BTreeMap::new(),
            task_queue: Arc::new(task_queue_new(TASK_QUEUE_CAPACITY)),
            waker_cache: BTreeMap::new(),
            ids: TaskIdAllocator::new(),
            attempts: Ghost(Seq::empty()),
            popped: Ghost(Seq::empty()),
            issued: Ghost(0),
        }
    }

    /// Spawns a task from `future`: the task gets the next identifier, goes
    /// into the table, and its identifier onto the ready queue. When a task
    /// with that identifier is still in the table, or the ready queue is
    /// full, nothing but the identifier counter changes.
    pub fn spawn(&mut self, future: F) -> (r: Result<TaskId, SpawnError>)
        requires
            old(self)@.wf(),
        ensures
            final(self)@.wf(),
            final(self)@.next_id == next_task_id(old(self)@.next_id),
            final(self).shared_queue() == old(self).shared_queue(),
            old(self)@.tasks.contains_key(old(self)@.next_id) ==> {
                &&& (r matches Err(SpawnError::DuplicateId(id)) && id.0 == old(self)@.next_id)
                &&& final(self)@.tasks == old(self)@.tasks
            },
            !old(self)@.tasks.contains_key(old(self)@.next_id) ==> {
                ||| (r matches Ok(id) && id.0 == old(self)@.next_id && final(self)@ == old(self)@.after_spawn(future))
                ||| (r matches Err(SpawnError::QueueFull(id)) && id.0 == old(self)@.next_id
                    && final(self)@.tasks == old(self)@.tasks)
            },
            final(self)@.wakers == old(self)@.wakers,
            final(self).popped() == old(self).popped(),
            old(self)@.tasks.contains_key(old(self)@.next_id) ==> final(self).attempts() == old(self).attempts(),
            !old(self)@.tasks.contains_key(old(self)@.next_id) ==> {
                &&& final(self).attempts() == old(self).attempts().push((TaskId(old(self)@.next_id), r is Ok))
                &&& (r matches Err(SpawnError::QueueFull(_))) <==> !(r is Ok)
            },
            final(self)@.issued == old(self)@.issued + 1,
            old(self)@.issued < 0x1_0000_0000 ==> !old(self)@.tasks.contains_key(old(self)@.next_id),
    {
        let task = Task::new(&mut self.ids, future);
        let task_id = task.get_id();
        assert(self@.tasks == old(self)@.tasks && self@.wakers == old(self)@.wakers);
        assert(self.attempts() == old(self).attempts() && self.popped() == old(self).popped());
        self.issued = Ghost(self.issued@ + 1);
        assert(self@.tasks == old(self)@.tasks && self@.wakers == old(self)@.wakers);
        if self.tasks.contains_key(&task_id.0) {
            return Err(SpawnError::DuplicateId(task_id));
        }
        match self.push_ready(task_id) {
            Err(_) => {
                assert(self@.tasks == old(self)@.tasks);
                Err(SpawnError::QueueFull(task_id))
            },
            Ok(()) => {
                self.tasks.insert(task_id.0, task);
                proof {
                    assert(self@ == old(self)@.after_spawn(future));
                }
                Ok(task_id)
            },
        }
    }

    /// Acts on an identifier `popped` off the ready queue (`None`: the
    /// queue was empty).
    pub fn dispatch(&mut self, popped: Option<TaskId>) -> (step: Step<F, W>)
        requires
            old(self)@.wf(),
        ensures
            final(self)@.wf(),
            (final(self)@, step) == old(self)@.after_pop(popped),
            popped is None ==> final(self)@ == old(self)@ && step is Idle,
            forall|k: u32| (popped matches Some(id) ==> k != id.0) ==> {
                &&& (#[trigger] final(self)@.tasks.contains_key(k)) == old(self)@.tasks.contains_key(k)
                &&& final(self)@.tasks.contains_key(k) ==> final(self)@.tasks[k] == old(self)@.tasks[k]
                &&& final(self)@.wakers.contains_key(k) == old(self)@.wakers.contains_key(k)
                &&& final(self)@.wakers.contains_key(k) ==> final(self)@.wakers[k] == old(self)@.wakers[k]
            },
            popped matches Some(id) ==> !old(self)@.tasks.contains_key(id.0) ==>
                final(self)@ == old(self)@ && (step matches Step::Skip(s) && s == id),
            popped matches Some(id) ==> old(self)@.tasks.contains_key(id.0) ==> {
                &&& !final(self)@.tasks.contains_key(id.0)
                &&& !final(self)@.wakers.contains_key(id.0)
                &&& step matches Step::Run(task, cached) && task == old(self)@.tasks[id.0]
                    && cached == old(self)@.cached_waker(id.0)
            },
            final(self)@.next_id == old(self)@.next_id,
            final(self)@.issued == old(self)@.issued,
            final(self).shared_queue() == old(self).shared_queue(),
            final(self).attempts() == old(self).attempts(),
            final(self).popped() == old(self).popped(),
    {
        match popped {
            None => {
                assert(self@.tasks == old(self)@.tasks && self@.wakers == old(self)@.wakers);
                Step::Idle
            },
            Some(id) => match self.tasks.remove(&id.0) {
                None => {
                    assert(self@.tasks =~= old(self)@.tasks);
                    assert(self@.wakers == old(self)@.wakers);
                    Step::Skip(id)
                },
                Some(task) => {
                    let waker = self.waker_cache.remove(&id.0);
                    assert(self@.tasks =~= old(self)@.tasks.remove(id.0));
                    assert(self@.wakers =~= old(self)@.wakers.remove(id.0));
                    Step::Run(task, waker)
                },
            },
        }
    }

    /// Takes the next identifier off the ready queue and acts on it. Which
    /// identifier comes off depends on what the wakers pushed.
    pub fn next_step(&mut self) -> (step: Step<F, W>)
        requires
            old(self)@.wf(),
        ensures
            final(self)@.wf(),
            final(self).popped().len() == old(self).popped().len() + 1,
            final(self).popped().drop_last() == old(self).popped(),
            (final(self)@, step) == old(self)@.after_pop(final(self).popped().last()),
            final(self).popped().last() is None ==> final(self)@ == old(self)@ && step is Idle,
            forall|k: u32| (final(self).popped().last() matches Some(id) ==> k != id.0) ==> {
                &&& (#[trigger] final(self)@.tasks.contains_key(k)) == old(self)@.tasks.contains_key(k)
                &&& final(self)@.tasks.contains_key(k) ==> final(self)@.tasks[k] == old(self)@.tasks[k]
                &&& final(self)@.wakers.contains_key(k) == old(self)@.wakers.contains_key(k)
                &&& final(self)@.wakers.contains_key(k) ==> final(self)@.wakers[k] == old(self)@.wakers[k]
            },
            final(self).popped().last() matches Some(id) ==> !old(self)@.tasks.contains_key(id.0) ==>
                final(self)@ == old(self)@ && (step matches Step::Skip(s) && s == id),
            final(self).popped().last() matches Some(id) ==> old(self)@.tasks.contains_key(id.0) ==> {
                &&& !final(self)@.tasks.contains_key(id.0)
                &&& !final(self)@.wakers.contains_key(id.0)
                &&& step matches Step::Run(task, cached) && task == old(self)@.tasks[id.0]
                    && cached == old(self)@.cached_waker(id.0)
            },
            final(self)@.next_id == old(self)@.next_id,
            final(self)@.issued == old(self)@.issued,
            final(self).attempts() == old(self).attempts(),
            final(self).shared_queue() == old(self).shared_queue(),
    {
        let popped = self.pop_ready();
        assert(self@.tasks == old(self)@.tasks && self@.wakers == old(self)@.wakers);
        let step = self.dispatch(popped);
        assert(self.popped().drop_last() =~= old(self).popped());
        step
    }

    /// Hands back a task that [`Executor::next_step`] handed out, with the
    /// waker it was polled with and whether its future completed.
    pub fn finish_poll(&mut self, task: Task<F>, waker: W, done: bool)
        requires
            old(self)@.wf(),
            !old(self)@.tasks.contains_key(task.id.0),
            old(self)@.issued < 0x1_0000_0000 ==> task.id.0 < old(self)@.issued,
        ensures
            final(self)@.wf(),
            final(self)@ == old(self)@.after_poll(task, waker, done),
            final(self).shared_queue() == old(self).shared_queue(),
            final(self).attempts() == old(self).attempts(),
            final(self).popped() == old(self).popped(),
    {
        if !done {
            let id = task.id.0;
            self.tasks.insert(id, task);
            self.waker_cache.insert(id, waker);
            assert(self@.tasks =~= old(self)@.tasks.insert(id, task));
            assert(self@.wakers =~= old(self)@.wakers.insert(id, waker));
        } else {
            assert(self@.tasks == old(self)@.tasks && self@.wakers == old(self)@.wakers);
        }
    }

    /// A handle on the ready queue, for the wakers of the tasks.
    pub fn task_queue(&self) -> (q: Arc<ArrayQueue<TaskId>>)
        ensures
            q == self.shared_queue(),
    {
        self.task_queue.clone()
    }

    /// Whether the ready queue held nothing at the moment of the call. The
    /// answer depends on what the wakers pushed meanwhile.
    pub fn is_idle(&self) -> bool {
        queue_is_empty(&*self.task_queue)
    }
}

/// Every step of the executor keeps its invariant: spawning a task whose
/// identifier is free, acting on any identifier off the ready queue, and
/// handing back a task that is out of the table and was spawned earlier.
pub proof fn lemma_steps_keep_invariant<F, W>(v: ExecutorView<F, W>, future: F, popped: Option<TaskId>, task: Task<F>, waker: W, done: bool)
    requires
        v.wf(),
    ensures
        !v.tasks.contains_key(v.next_id) ==> v.after_spawn(future).wf(),
        v.after_pop(popped).0.wf(),
        !v.tasks.contains_key(task.id.0) && (v.issued < 0x1_0000_0000 ==> task.id.0 < v.issued)
            ==> v.after_poll(task, waker, done).wf(),
{
}

/// Until `2^32` identifiers have been handed out, the identifier of the
/// next spawned task is free: spawning never meets a duplicate.
pub proof fn lemma_next_id_is_free<F, W>(v: ExecutorView<F, W>)
    requires
        v.wf(),
        v.issued < 0x1_0000_0000,
    ensures
        !v.tasks.contains_key(v.next_id),
{
}

/// Acting on what came off the ready queue touches only the popped task:
/// an empty pop changes nothing and asks for no work; every task and waker
/// other than the popped identifier's stays as it was; an identifier with
/// no task changes nothing; and a live task leaves the table with its own
/// waker, both handed out unchanged.
pub proof fn lemma_pop_touches_only_popped<F, W>(v: ExecutorView<F, W>, popped: Option<TaskId>, k: u32)
    requires
        v.wf(),
    ensures
        popped is None ==> v.after_pop(popped).0 == v && v.after_pop(popped).1 is Idle,
        (popped matches Some(id) ==> k != id.0) ==> {
            let w = v.after_pop(popped).0;
            &&& w.tasks.contains_key(k) == v.tasks.contains_key(k)
            &&& w.tasks.contains_key(k) ==> w.tasks[k] == v.tasks[k]
            &&& w.wakers.contains_key(k) == v.wakers.contains_key(k)
            &&& w.wakers.contains_key(k) ==> w.wakers[k] == v.wakers[k]
            &&& w.next_id == v.next_id
            &&& w.issued == v.issued
        },
        popped matches Some(id) ==> !v.tasks.contains_key(id.0) ==>
            v.after_pop(popped).0 == v && (v.after_pop(popped).1 matches Step::Skip(s) && s == id),
        popped matches Some(id) ==> v.tasks.contains_key(id.0) ==> {
            let (w, step) = v.after_pop(popped);
            &&& !w.tasks.contains_key(id.0)
            &&& !w.wakers.contains_key(id.0)
            &&& step matches Step::Run(task, cached) && task == v.tasks[id.0] && task.id == id
                && (v.wakers.contains_key(id.0) ==> cached == Some(v.wakers[id.0]))
                && (!v.wakers.contains_key(id.0) ==> cached is None)
        },
{
}

/// A task that was just spawned is handed out, with its own future and no
/// waker yet, when its identifier comes off the ready queue; the table is
/// then as it was before the spawn.
pub proof fn lemma_spawned_task_runs<F, W>(v: ExecutorView<F, W>, future: F)
    requires
        v.wf(),
        !v.tasks.contains_key(v.next_id),
    ensures
        v.after_spawn(future).after_pop(Some(TaskId(v.next_id))).1 == Step::<F, W>::Run(Task { id: TaskId(v.next_id), future }, None),
        v.after_spawn(future).after_pop(Some(TaskId(v.next_id))).0.tasks == v.tasks,
        v.after_spawn(future).after_pop(Some(TaskId(v.next_id))).0.wakers == v.wakers,
{
    let n = v.next_id;
    assert(v.tasks.insert(n, Task { id: TaskId(n), future }).remove(n) =~= v.tasks);
    assert(v.wakers.remove(n) =~= v.wakers);
}

/// A task whose poll did not complete goes back into the table unchanged,
/// with the waker it was polled with cached for its next poll.
pub proof fn lemma_pending_task_returns<F, W>(v: ExecutorView<F, W>, id: TaskId, waker: W)
    requires
        v.wf(),
        v.tasks.contains_key(id.0),
    ensures
        ({
            let (v1, step) = v.after_pop(Some(id));
            &&& step matches Step::Run(task, _)
            &&& step matches Step::Run(task, _) ==> v1.after_poll(task, waker, false).tasks == v.tasks
            &&& step matches Step::Run(task, _) ==> v1.after_poll(task, waker, false).wakers == v.wakers.insert(id.0, waker)
        }),
{
    let t = v.tasks[id.0];
    assert(v.tasks.remove(id.0).insert(t.id.0, t) =~= v.tasks);
    assert(v.wakers.remove(id.0).insert(t.id.0, waker) =~= v.wakers.insert(id.0, waker));
}

/// A task whose poll completed is gone for good: neither it nor a waker for
/// it is left, and every other task and waker is as it was.
pub proof fn lemma_done_task_is_gone<F, W>(v: ExecutorView<F, W>, id: TaskId, waker: W)
    requires
        v.wf(),
        v.tasks.contains_key(id.0),
    ensures
        ({
            let (v1, step) = v.after_pop(Some(id));
            step matches Step::Run(task, _) ==> {
                let v2 = v1.after_poll(task, waker, true);
                &&& !v2.tasks.contains_key(id.0)
                &&& !v2.wakers.contains_key(id.0)
                &&& v2.tasks == v.tasks.remove(id.0)
                &&& v2.wakers == v.wakers.remove(id.0)
                &&& v2.after_pop(Some(id)) == (v2, Step::<F, W>::Skip(id))
            }
        }),
{
}

} // verus!
