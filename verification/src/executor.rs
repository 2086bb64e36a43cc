//! The executor: an arena of task records and a FIFO ready queue of handles.
//!
//! Task records live in an arena and are named by stable integer handles; the
//! ready queue is a sequence of those handles in strict first-in-first-out
//! order. Spawning appends a record and links it at the tail; one scheduling
//! step pops the head, polls its routine exactly once, and re-links the task
//! at the tail exactly when the routine requested resumption during the poll.
//! A released record leaves the arena for good, so a handle to it goes stale
//! and every later use of it is a checked no-op — the arena turns the classic
//! intrusive-list misuse cases (double enqueue, waking a dead task) into
//! provable no-ops instead of memory corruption.
//!
//! Every operation's contract is stated against [`ExecutorModel`], a purely
//! mathematical picture of the executor: each call maps the model through the
//! matching model-level function, so the scheduling guarantees proved over
//! the model carry over to the running code unchanged.

use vstd::prelude::*;

use crate::routine::{PollContext, Routine, WakeHandle};

verus! {

/// State of a task record's wake slot.
///
/// The slot is empty until the task is first polled; each poll stores a
/// fresh live handle; teardown forces the slots of still-linked tasks to
/// inert so a late wake cannot touch a queue that no longer exists.
#[derive(Clone, Copy, Debug, PartialEq, Eq, Structural)]
pub enum WakeSlot {
    /// No wake handle exists for the task yet.
    Vacant,
    /// The task holds a live handle; waking it will re-link the task.
    Live,
    /// The handle was neutralised; waking the task does nothing.
    Inert,
}

/// One task record: the routine being driven, its queue linkage and its
/// wake slot. A vacated record (routine gone) stays in the arena so that
/// its handle can never be reused for another task.
struct Slot<R> {
    routine: Option<R>,
    linked: bool,
    wake: WakeSlot,
}

/// Mathematical model of one task record.
#[verifier::ext_equal]
pub struct TaskModel<R> {
    /// The routine still registered in this record, if any.
    pub routine: Option<R>,
    /// Whether the record is currently linked into the ready queue.
    pub linked: bool,
    /// State of the record's wake slot.
    pub wake: WakeSlot,
}

/// Mathematical model of the whole executor: the arena of task records, the
/// ready queue as a sequence of arena handles, and the teardown flag.
#[verifier::ext_equal]
pub struct ExecutorModel<R> {
    /// All task records ever spawned, indexed by their stable handle.
    pub tasks: Seq<TaskModel<R>>,
    /// Handles of the linked records, in scheduling order (head first).
    pub queue: Seq<usize>,
    /// Whether the executor has been torn down.
    pub down: bool,
}

impl<R: Routine> ExecutorModel<R> {
    /// A handle names a record that still holds its routine.
    pub open spec fn registered(self, t: int) -> bool {
        &&& 0 <= t < self.tasks.len()
        &&& self.tasks[t].routine is Some
    }

    /// Well-formedness: every queued handle names a linked, registered
    /// record, no handle is queued twice, and a record is linked exactly
    /// when its handle is in the queue.
    pub open spec fn wf(self) -> bool {
        &&& self.tasks.len() <= usize::MAX as int + 1
        &&& forall|i: int|
            0 <= i < self.queue.len() ==> self.registered(#[trigger] self.queue[i] as int)
        &&& forall|i: int, j: int|
            0 <= i < j < self.queue.len() ==> #[trigger] self.queue[i] != #[trigger] self.queue[j]
        &&& forall|t: int|
            0 <= t < self.tasks.len() ==> ((#[trigger] self.tasks[t].linked) <==> self.queue.contains(
                t as usize,
            ))
    }

    /// The empty executor.
    pub open spec fn init() -> ExecutorModel<R> {
        ExecutorModel { tasks: Seq::empty(), queue: Seq::empty(), down: false }
    }

    /// The model after spawning `routine`: a fresh record, linked at the
    /// tail of the queue, with an empty wake slot.
    pub open spec fn after_spawn(self, routine: R) -> ExecutorModel<R> {
        ExecutorModel {
            tasks: self.tasks.push(
                TaskModel { routine: Some(routine), linked: true, wake: WakeSlot::Vacant },
            ),
            queue: self.queue.push(self.tasks.len() as usize),
            down: self.down,
        }
    }

    /// The handle a scheduling step will poll: the queue head.
    pub open spec fn polled_id(self) -> Option<usize> {
        if self.queue.len() == 0 {
            None
        } else {
            Some(self.queue[0])
        }
    }

    /// The model after one scheduling step.
    ///
    /// An empty queue leaves the model unchanged. Otherwise the head record
    /// is unlinked, given a fresh live wake slot, and its routine advances
    /// by exactly one step; the task is re-linked at the tail exactly when
    /// the routine requested resumption during the poll.
    pub open spec fn step(self) -> ExecutorModel<R> {
        if self.queue.len() == 0 {
            self
        } else {
            let t = self.queue[0];
            if self.registered(t as int) {
                let r = self.tasks[t as int].routine.unwrap();
                ExecutorModel {
                    tasks: self.tasks.update(
                        t as int,
                        TaskModel {
                            routine: Some(r.stepped()),
                            linked: r.wakes_now(),
                            wake: WakeSlot::Live,
                        },
                    ),
                    queue: if r.wakes_now() {
                        self.queue.drop_first().push(t)
                    } else {
                        self.queue.drop_first()
                    },
                    down: self.down,
                }
            } else {
                self
            }
        }
    }

    /// The model after `n` scheduling steps.
    pub open spec fn run(self, n: nat) -> ExecutorModel<R>
        decreases n,
    {
        if n == 0 {
            self
        } else {
            self.run((n - 1) as nat).step()
        }
    }

    /// The model after invoking `handle`.
    ///
    /// A live handle naming a registered, unlinked record whose wake slot
    /// still holds a live handle re-links that record at the tail; every
    /// other invocation — an inert handle, a stale handle, a record already
    /// linked, a neutralised wake slot — changes nothing.
    pub open spec fn after_wake(self, handle: WakeHandle) -> ExecutorModel<R> {
        match handle {
            WakeHandle::Inert => self,
            WakeHandle::Live { task } => {
                if self.registered(task as int) && self.tasks[task as int].wake is Live
                    && !self.tasks[task as int].linked {
                    ExecutorModel {
                        tasks: self.tasks.update(
                            task as int,
                            TaskModel { linked: true, ..self.tasks[task as int] },
                        ),
                        queue: self.queue.push(task),
                        down: self.down,
                    }
                } else {
                    self
                }
            },
        }
    }

    /// The model after releasing the record named by `t`: the record is
    /// unlinked from the queue if present, its routine leaves the arena and
    /// its wake slot goes inert, so every handle to it is stale from now on.
    pub open spec fn after_release(self, t: usize) -> ExecutorModel<R> {
        if self.registered(t as int) {
            ExecutorModel {
                tasks: self.tasks.update(
                    t as int,
                    TaskModel { routine: None, linked: false, wake: WakeSlot::Inert },
                ),
                queue: match self.queue.index_of_first(t) {
                    Some(i) => self.queue.remove(i),
                    None => self.queue,
                },
                down: self.down,
            }
        } else {
            self
        }
    }

    /// The model after teardown: every record still linked in the queue has
    /// its wake slot forced to inert and is unlinked; records that were not
    /// linked keep whatever wake slot they had.
    pub open spec fn after_shutdown(self) -> ExecutorModel<R> {
        ExecutorModel {
            tasks: Seq::new(
                self.tasks.len(),
                |t: int|
                    if self.tasks[t].linked {
                        TaskModel { linked: false, wake: WakeSlot::Inert, ..self.tasks[t] }
                    } else {
                        self.tasks[t]
                    },
            ),
            queue: Seq::empty(),
            down: true,
        }
    }
}

impl<R: Routine> ExecutorModel<R> {
    /// One scheduling step preserves well-formedness.
    pub proof fn lemma_step_wf(self)
        requires
            self.wf(),
        ensures
            self.step().wf(),
    {
        if self.queue.len() > 0 {
            let t = self.queue[0];
            assert(self.registered(t as int));
            let m = self.step();
            let rest = self.queue.drop_first();
            assert(forall|i: int| 0 <= i < rest.len() ==> rest[i] == self.queue[i + 1]);
            assert(forall|i: int| 0 <= i < rest.len() ==> rest[i] != t);
            assert forall|i: int| 0 <= i < m.queue.len() implies m.registered(
                #[trigger] m.queue[i] as int,
            ) by {
                if i < rest.len() {
                    assert(self.registered(self.queue[i + 1] as int));
                } else {
                    assert(m.queue[i] == t);
                }
            }
            assert forall|i: int, j: int| 0 <= i < j < m.queue.len() implies #[trigger] m.queue[i]
                != #[trigger] m.queue[j] by {
                if j < rest.len() {
                    assert(self.queue[i + 1] != self.queue[j + 1]);
                }
            }
            assert forall|tt: int| 0 <= tt < m.tasks.len() implies ((
            #[trigger] m.tasks[tt].linked) <==> m.queue.contains(tt as usize)) by {
                let r = self.tasks[t as int].routine.unwrap();
                if tt == t as int {
                    if r.wakes_now() {
                        assert(m.queue[m.queue.len() - 1] == t);
                        assert(m.queue.contains(t));
                    } else {
                        assert forall|i: int| 0 <= i < m.queue.len() implies m.queue[i] != t by {}
                        assert(!m.queue.contains(tt as usize));
                    }
                } else {
                    if self.tasks[tt].linked {
                        let i = choose|i: int|
                            0 <= i < self.queue.len() && self.queue[i] == tt as usize;
                        assert(i != 0);
                        assert(m.queue[i - 1] == tt as usize);
                        assert(m.queue.contains(tt as usize));
                    }
                    if m.queue.contains(tt as usize) {
                        let i = choose|i: int|
                            0 <= i < m.queue.len() && m.queue[i] == tt as usize;
                        if i < rest.len() {
                            assert(self.queue[i + 1] == tt as usize);
                        }
                        assert(self.queue.contains(tt as usize));
                    }
                }
            }
        }
    }

    /// Invoking a wake handle preserves well-formedness.
    pub proof fn lemma_wake_wf(self, handle: WakeHandle)
        requires
            self.wf(),
        ensures
            self.after_wake(handle).wf(),
    {
        let m = self.after_wake(handle);
        if let WakeHandle::Live { task } = handle {
            if self.registered(task as int) && self.tasks[task as int].wake is Live
                && !self.tasks[task as int].linked {
                assert(!self.queue.contains(task));
                assert forall|i: int| 0 <= i < m.queue.len() implies m.registered(
                    #[trigger] m.queue[i] as int,
                ) by {
                    if i < self.queue.len() {
                        assert(self.registered(self.queue[i] as int));
                    } else {
                        assert(m.queue[i] == task);
                    }
                }
                assert forall|tt: int| 0 <= tt < m.tasks.len() implies ((
                #[trigger] m.tasks[tt].linked) <==> m.queue.contains(tt as usize)) by {
                    if tt == task as int {
                        assert(m.queue[m.queue.len() - 1] == task);
                        assert(m.queue.contains(task));
                    } else {
                        if self.tasks[tt].linked {
                            let i = choose|i: int|
                                0 <= i < self.queue.len() && self.queue[i] == tt as usize;
                            assert(m.queue[i] == tt as usize);
                            assert(m.queue.contains(tt as usize));
                        }
                        if m.queue.contains(tt as usize) {
                            let i = choose|i: int|
                                0 <= i < m.queue.len() && m.queue[i] == tt as usize;
                            assert(i < self.queue.len());
                            assert(self.queue.contains(tt as usize));
                        }
                    }
                }
            }
        }
    }

    /// Releasing a task record preserves well-formedness.
    pub proof fn lemma_release_wf(self, t: usize)
        requires
            self.wf(),
        ensures
            self.after_release(t).wf(),
    {
        if self.registered(t as int) {
            let m = self.after_release(t);
            self.queue.index_of_first_ensures(t);
            match self.queue.index_of_first(t) {
                Some(idx) => {
                    let q = self.queue.remove(idx);
                    assert(forall|j: int| 0 <= j < idx ==> q[j] == self.queue[j]);
                    assert(forall|j: int|
                        idx <= j < q.len() ==> q[j] == self.queue[j + 1]);
                    assert forall|j: int| 0 <= j < q.len() implies q[j] != t by {
                        if idx <= j {
                            assert(self.queue[idx] == t);
                            assert(self.queue[j + 1] != self.queue[idx]);
                        }
                    }
                    assert forall|i: int| 0 <= i < m.queue.len() implies m.registered(
                        #[trigger] m.queue[i] as int,
                    ) by {
                        if i < idx {
                            assert(self.registered(self.queue[i] as int));
                        } else {
                            assert(self.registered(self.queue[i + 1] as int));
                        }
                    }
                    assert forall|i: int, j: int| 0 <= i < j < m.queue.len() implies #[trigger] m.queue[i] != #[trigger] m.queue[j] by {
                        let i0 = if i < idx { i } else { i + 1 };
                        let j0 = if j < idx { j } else { j + 1 };
                        assert(self.queue[i0] != self.queue[j0]);
                    }
                    assert forall|tt: int| 0 <= tt < m.tasks.len() implies ((
                    #[trigger] m.tasks[tt].linked) <==> m.queue.contains(tt as usize)) by {
                        if tt == t as int {
                            assert(!m.tasks[tt].linked);
                            assert(forall|j: int| 0 <= j < q.len() ==> q[j] != t);
                            assert(!m.queue.contains(tt as usize));
                        } else {
                            if self.tasks[tt].linked {
                                let i = choose|i: int|
                                    0 <= i < self.queue.len() && self.queue[i] == tt as usize;
                                assert(i != idx);
                                if i < idx {
                                    assert(q[i] == tt as usize);
                                } else {
                                    assert(q[i - 1] == tt as usize);
                                }
                                assert(m.queue.contains(tt as usize));
                            }
                            if m.queue.contains(tt as usize) {
                                let i = choose|i: int|
                                    0 <= i < m.queue.len() && m.queue[i] == tt as usize;
                                if i < idx {
                                    assert(self.queue[i] == tt as usize);
                                } else {
                                    assert(self.queue[i + 1] == tt as usize);
                                }
                                assert(self.queue.contains(tt as usize));
                            }
                        }
                    }
                },
                None => {
                    assert forall|tt: int| 0 <= tt < m.tasks.len() implies ((
                    #[trigger] m.tasks[tt].linked) <==> m.queue.contains(tt as usize)) by {
                        if tt == t as int {
                            assert(!self.queue.contains(t));
                        }
                    }
                },
            }
        }
    }

    /// Teardown preserves well-formedness.
    pub proof fn lemma_shutdown_wf(self)
        requires
            self.wf(),
        ensures
            self.after_shutdown().wf(),
    {
    }
}

/// A scope-bound deregistration guard for one spawned task.
///
/// Spawning returns the guard; releasing it removes the task's record from
/// the ready queue and retires its arena handle. The guard must be released
/// on the executor that issued it, and only when the spawner is done with
/// the task — exactly the discipline under which the record's storage may
/// be reclaimed.
pub struct TaskGuard {
    task: usize,
}

impl TaskGuard {
    /// The arena handle of the guarded task.
    pub closed spec fn task(self) -> usize {
        self.task
    }

    /// The arena handle of the guarded task.
    pub fn task_id(&self) -> (t: usize)
        ensures
            t == self.task(),
    {
        self.task
    }

    /// A live wake handle for the guarded task, for resuming it from
    /// outside its own poll.
    pub fn wake_handle(&self) -> (handle: WakeHandle)
        ensures
            handle == (WakeHandle::Live { task: self.task() }),
    {
        WakeHandle::Live { task: self.task }
    }
}

/// The executor: owns the arena and the ready queue and drives routines one
/// poll at a time. See [`ExecutorModel`] for the model every operation is
/// specified against.
pub struct Executor<R> {
    slots: Vec<Slot<R>>,
    queue: Vec<usize>,
    down: bool,
}

impl<R: Routine> View for Executor<R> {
    type V = ExecutorModel<R>;

    closed spec fn view(&self) -> ExecutorModel<R> {
        ExecutorModel {
            tasks: self.slots@.map_values(
                |s: Slot<R>| TaskModel { routine: s.routine, linked: s.linked, wake: s.wake },
            ),
            queue: self.queue@,
            down: self.down,
        }
    }
}

impl<R: Routine> Executor<R> {
    /// A fresh executor with an empty arena and an empty queue.
    pub fn new() -> (ex: Executor<R>)
        ensures
            ex@ == ExecutorModel::<R>::init(),
            ex@.wf(),
    {
        let ex = Executor { slots: Vec::new(), queue: Vec::new(), down: false };
        proof {
            assert(ex@.tasks =~= Seq::<TaskModel<R>>::empty());
            assert(ex@.queue =~= Seq::<usize>::empty());
            assert(ex@ =~= ExecutorModel::<R>::init());
        }
        ex
    }

    /// Register a routine: a fresh record is appended to the arena and
    /// linked at the tail of the ready queue, and the spawner receives the
    /// deregistration guard for it. The record stays where it is for the
    /// task's whole lifetime, so the returned handle stays valid until the
    /// guard is released.
    pub fn spawn(&mut self, routine: R) -> (guard: TaskGuard)
        requires
            old(self)@.wf(),
            !old(self)@.down,
        ensures
            final(self)@ == old(self)@.after_spawn(routine),
            final(self)@.wf(),
            guard.task() == old(self)@.tasks.len(),
    {
        let ghost pre = self@;
        let t = self.slots.len();
        self.slots.push(Slot { routine: Some(routine), linked: true, wake: WakeSlot::Vacant });
        self.queue.push(t);
        proof {
            assert(self@.tasks =~= pre.after_spawn(routine).tasks);
            assert(self@ =~= pre.after_spawn(routine));
            assert forall|i: int| 0 <= i < self@.queue.len() implies self@.registered(
                #[trigger] self@.queue[i] as int,
            ) by {
                if i < pre.queue.len() {
                    assert(pre.registered(pre.queue[i] as int));
                }
            }
            assert forall|tt: int| 0 <= tt < self@.tasks.len() implies ((
            #[trigger] self@.tasks[tt].linked) <==> self@.queue.contains(tt as usize)) by {
                if tt < pre.tasks.len() {
                    if pre.tasks[tt].linked {
                        let i = choose|i: int|
                            0 <= i < pre.queue.len() && pre.queue[i] == tt as usize;
                        assert(self@.queue[i] == tt as usize);
                    }
                    if self@.queue.contains(tt as usize) {
                        let i = choose|i: int|
                            0 <= i < self@.queue.len() && self@.queue[i] == tt as usize;
                        assert(i < pre.queue.len());
                        assert(pre.queue.contains(tt as usize));
                    }
                } else {
                    assert(self@.queue[pre.queue.len() as int] == tt as usize);
                }
            }
        }
        TaskGuard { task: t }
    }

    /// One scheduling step.
    ///
    /// Pops the head of the ready queue (a no-op on an empty queue), stores
    /// a fresh live wake handle in the popped record's wake slot, polls its
    /// routine exactly once, and links the record back at the tail exactly
    /// when the routine requested resumption during the poll. Neither the
    /// poll's completion nor its suspension is surfaced; the caller only
    /// learns which task, if any, was advanced.
    pub fn poll(&mut self) -> (polled: Option<usize>)
        requires
            old(self)@.wf(),
            !old(self)@.down,
        ensures
            final(self)@ == old(self)@.step(),
            final(self)@.wf(),
            polled == old(self)@.polled_id(),
    {
        let ghost pre = self@;
        if self.queue.len() == 0 {
            return None;
        }
        let t = self.queue.remove(0);
        proof {
            assert(pre.registered(pre.queue[0] as int));
            assert(self.queue@ =~= pre.queue.drop_first());
        }
        let slot = &mut self.slots[t];
        let mut routine = slot.routine.take().unwrap();
        slot.wake = WakeSlot::Live;
        let mut cx = PollContext::new(t);
        let _status = routine.poll(&mut cx);
        let woke = cx.woken();
        slot.routine = Some(routine);
        slot.linked = woke;
        if woke {
            self.queue.push(t);
        }
        proof {
            let m = pre.step();
            assert(self@.tasks =~= m.tasks);
            assert(self@.queue =~= m.queue);
            assert(self@ =~= m);
            pre.lemma_step_wf();
        }
        Some(t)
    }

    /// Invoke a wake handle against this executor.
    ///
    /// A live handle whose task is still registered, currently unlinked and
    /// whose wake slot still holds a live handle is linked back at the tail
    /// of the ready queue. Everything else — an inert handle, a stale handle
    /// to a released task, a task already linked (so a second wake before
    /// the next poll cannot double-link it), or a wake slot neutralised by
    /// teardown — is a checked no-op.
    pub fn wake(&mut self, handle: &WakeHandle)
        requires
            old(self)@.wf(),
        ensures
            final(self)@ == old(self)@.after_wake(*handle),
            final(self)@.wf(),
    {
        let ghost pre = self@;
        match handle {
            WakeHandle::Inert => {
                proof {
                    assert(self@ =~= pre.after_wake(*handle));
                }
            },
            WakeHandle::Live { task } => {
                let t = *task;
                let hit = t < self.slots.len() && self.slots[t].routine.is_some()
                    && self.slots[t].wake == WakeSlot::Live && !self.slots[t].linked;
                if hit {
                    let slot = &mut self.slots[t];
                    slot.linked = true;
                    self.queue.push(t);
                    proof {
                        assert(self@.tasks =~= pre.after_wake(*handle).tasks);
                        assert(self@ =~= pre.after_wake(*handle));
                    }
                } else {
                    proof {
                        assert(self@ =~= pre.after_wake(*handle));
                    }
                }
            },
        }
        proof {
            pre.lemma_wake_wf(*handle);
        }
    }

    /// Release a deregistration guard: the guarded record is unlinked from
    /// the ready queue if it is currently linked, its routine leaves the
    /// arena, and its wake slot goes inert. From this point on no scheduling
    /// step can observe the task, and every handle to it is stale.
    pub fn release(&mut self, guard: TaskGuard)
        requires
            old(self)@.wf(),
        ensures
            final(self)@ == old(self)@.after_release(guard.task()),
            final(self)@.wf(),
    {
        let ghost pre = self@;
        let t = guard.task_id();
        let registered = t < self.slots.len() && self.slots[t].routine.is_some();
        if !registered {
            proof {
                assert(self@ =~= pre.after_release(t));
                pre.lemma_release_wf(t);
            }
            return;
        }
        if self.slots[t].linked {
            let mut i: usize = 0;
            while i < self.queue.len() && self.queue[i] != t
                invariant
                    i <= self.queue@.len(),
                    forall|j: int| 0 <= j < i ==> self.queue@[j] != t,
                decreases self.queue@.len() - i,
            {
                i = i + 1;
            }
            proof {
                assert(pre.tasks[t as int].linked);
                assert(pre.queue.contains(t));
                if i == self.queue@.len() {
                    let w = choose|w: int| 0 <= w < pre.queue.len() && pre.queue[w] == t;
                    assert(false);
                }
                self.queue@.index_of_first_ensures(t);
                match pre.queue.index_of_first(t) {
                    Some(idx) => {
                        if idx < i as int {
                            assert(pre.queue[idx] != t);
                        }
                        if (i as int) < idx {
                            assert(pre.queue[i as int] != t);
                        }
                        assert(idx == i as int);
                    },
                    None => {
                        assert(false);
                    },
                }
            }
            let _removed = self.queue.remove(i);
        } else {
            proof {
                assert(!pre.tasks[t as int].linked);
                assert(((t as int) as usize) == t);
                assert(!pre.queue.contains(t));
                pre.queue.index_of_first_ensures(t);
            }
        }
        let slot = &mut self.slots[t];
        slot.routine = None;
        slot.linked = false;
        slot.wake = WakeSlot::Inert;
        proof {
            assert(self@.tasks =~= pre.after_release(t).tasks);
            assert(self@ =~= pre.after_release(t));
            pre.lemma_release_wf(t);
        }
    }

    /// Tear the executor down.
    ///
    /// Every record still linked in the ready queue has its wake slot forced
    /// to inert, so a wake invocation that arrives after teardown cannot
    /// touch the queue. Records that are suspended outside the queue at this
    /// moment keep their live wake slots: waking them later only re-links
    /// them into a queue that is no longer polled, a deliberate boundary of
    /// the design.
    pub fn shutdown(&mut self)
        requires
            old(self)@.wf(),
        ensures
            final(self)@ == old(self)@.after_shutdown(),
            final(self)@.wf(),
    {
        let ghost pre = self@;
        self.down = true;
        let mut t: usize = 0;
        while t < self.slots.len()
            invariant
                t <= self.slots@.len(),
                self.slots@.len() == pre.tasks.len(),
                self.down,
                self.queue@ == pre.queue,
                forall|j: int|
                    0 <= j < t ==> self@.tasks[j] == pre.after_shutdown().tasks[j],
                forall|j: int| t <= j < pre.tasks.len() ==> self@.tasks[j] == pre.tasks[j],
            decreases self.slots@.len() - t,
        {
            if self.slots[t].linked {
                let slot = &mut self.slots[t];
                slot.linked = false;
                slot.wake = WakeSlot::Inert;
            }
            proof {
                assert(self@.tasks[t as int] == pre.after_shutdown().tasks[t as int]);
            }
            t = t + 1;
        }
        self.queue.clear();
        proof {
            assert(self@.tasks =~= pre.after_shutdown().tasks);
            assert(self@.queue =~= pre.after_shutdown().queue);
            assert(self@ =~= pre.after_shutdown());
            pre.lemma_shutdown_wf();
        }
    }

    /// Number of records in the arena, released ones counted too.
    pub fn task_count(&self) -> (n: usize)
        ensures
            n == self@.tasks.len(),
    {
        self.slots.len()
    }

    /// Number of tasks currently linked in the ready queue.
    pub fn queue_len(&self) -> (n: usize)
        ensures
            n == self@.queue.len(),
    {
        self.queue.len()
    }

    /// Whether the executor has been torn down.
    pub fn is_down(&self) -> (d: bool)
        ensures
            d == self@.down,
    {
        self.down
    }

    /// Whether the record named by `t` is currently linked in the queue.
    pub fn is_linked(&self, t: usize) -> (b: bool)
        ensures
            b == (t < self@.tasks.len() && self@.tasks[t as int].linked),
    {
        t < self.slots.len() && self.slots[t].linked
    }

    /// The wake-slot state of the record named by `t`, if the handle is in
    /// range of the arena.
    pub fn wake_slot(&self, t: usize) -> (w: Option<WakeSlot>)
        ensures
            match w {
                Some(state) => t < self@.tasks.len() && state == self@.tasks[t as int].wake,
                None => t >= self@.tasks.len(),
            },
    {
        if t < self.slots.len() {
            Some(self.slots[t].wake)
        } else {
            None
        }
    }

    /// The routine registered in the record named by `t`, if any.
    pub fn routine(&self, t: usize) -> (r: Option<&R>)
        ensures
            match r {
                Some(routine) => t < self@.tasks.len() && self@.tasks[t as int].routine == Some(
                    *routine,
                ),
                None => t >= self@.tasks.len() || self@.tasks[t as int].routine is None,
            },
    {
        if t < self.slots.len() {
            self.slots[t].routine.as_ref()
        } else {
            None
        }
    }
}

} // verus!
