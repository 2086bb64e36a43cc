//! The scheduling guarantees, proved once over the executor model.
//!
//! Every executor operation maps the model through the matching model-level
//! function ([`ExecutorModel::step`] and friends), so each statement below
//! holds of the running executor through those contracts: fairness of the
//! round-robin schedule, single-step progress, deregistration, re-entrant
//! wake-ups, and teardown.

use vstd::arithmetic::div_mod::{
    lemma_fundamental_div_mod, lemma_fundamental_div_mod_converse,
};
use vstd::prelude::*;

use crate::executor::ExecutorModel;
use crate::routine::{Routine, WakeHandle};

verus! {

/// `p` is a re-arming discipline: every routine satisfying it requests its
/// own resumption at each poll and still satisfies `p` afterwards.
pub open spec fn rearming<R: Routine>(p: spec_fn(R) -> bool) -> bool {
    forall|r: R| #[trigger] p(r) ==> r.wakes_now() && p(r.stepped())
}

/// Every routine currently linked in the ready queue of `m` satisfies `p`.
pub open spec fn queued_satisfy<R: Routine>(m: ExecutorModel<R>, p: spec_fn(R) -> bool) -> bool {
    forall|i: int|
        0 <= i < m.queue.len() ==> p(m.tasks[#[trigger] m.queue[i] as int].routine.unwrap())
}

/// The queue rotated left by `k` places.
pub open spec fn rotated(q: Seq<usize>, k: int) -> Seq<usize>
    recommends
        0 <= k <= q.len(),
{
    q.subrange(k, q.len() as int) + q.subrange(0, k)
}

/// Rotating left one more place: dropping the head of a rotation and
/// appending it at the tail is the next rotation.
proof fn lemma_rotated_step(q: Seq<usize>, k: int)
    requires
        0 <= k < q.len(),
    ensures
        rotated(q, k).len() == q.len(),
        rotated(q, k)[0] == q[k],
        rotated(q, k).drop_first().push(q[k]) == rotated(
            q,
            if k + 1 == q.len() {
                0int
            } else {
                k + 1
            },
        ),
{
    let n = q.len() as int;
    let next = if k + 1 == n {
        0int
    } else {
        k + 1
    };
    let lhs = rotated(q, k).drop_first().push(q[k]);
    let rhs = rotated(q, next);
    assert forall|x: int| 0 <= x < n implies lhs[x] == rhs[x] by {
        if x < n - 1 {
            assert(lhs[x] == rotated(q, k)[x + 1]);
        }
    }
    assert(lhs =~= rhs);
}

/// One scheduling step under a re-arming discipline rotates the ready queue
/// left by one place and keeps the discipline in force.
proof fn lemma_rearming_step<R: Routine>(m: ExecutorModel<R>, p: spec_fn(R) -> bool)
    requires
        m.wf(),
        rearming::<R>(p),
        queued_satisfy(m, p),
        m.queue.len() > 0,
    ensures
        m.step().queue == m.queue.drop_first().push(m.queue[0]),
        m.step().wf(),
        queued_satisfy(m.step(), p),
        m.step().tasks.len() == m.tasks.len(),
{
    let t = m.queue[0];
    assert(m.registered(t as int));
    assert(p(m.tasks[m.queue[0] as int].routine.unwrap()));
    let r = m.tasks[t as int].routine.unwrap();
    assert(r.wakes_now());
    m.lemma_step_wf();
    let s = m.step();
    assert forall|i: int| 0 <= i < s.queue.len() implies p(
        s.tasks[#[trigger] s.queue[i] as int].routine.unwrap(),
    ) by {
        if i < s.queue.len() - 1 {
            assert(s.queue[i] == m.queue[i + 1]);
            assert(p(m.tasks[m.queue[i + 1] as int].routine.unwrap()));
            assert(m.queue[i + 1] != t);
        } else {
            assert(s.queue[i] == t);
            assert(s.tasks[t as int].routine == Some(r.stepped()));
        }
    }
}

/// Round-robin fairness of the schedule.
///
/// For tasks spawned in order and kept ready by a re-arming discipline —
/// each poll of a queued routine requests its resumption again — the
/// `i`-th scheduling step polls the task at position `i` modulo the queue
/// length of the starting state: repeated polling visits the ready tasks in
/// strict queue order, round after round, for any number of rounds.
pub proof fn lemma_fifo_fairness<R: Routine>(m: ExecutorModel<R>, p: spec_fn(R) -> bool, i: nat)
    requires
        m.wf(),
        rearming::<R>(p),
        queued_satisfy(m, p),
        m.queue.len() > 0,
    ensures
        m.run(i).queue == rotated(m.queue, (i as int) % (m.queue.len() as int)),
        m.run(i).polled_id() == Some(m.queue[(i as int) % (m.queue.len() as int)]),
    decreases i,
{
    let n = m.queue.len() as int;
    let k = (i as int) % n;
    lemma_fundamental_div_mod(i as int, n);
    assert(0 <= k < n);
    if i == 0 {
        assert(k == 0);
        assert(rotated(m.queue, 0) =~= m.queue);
    } else {
        let j = (i - 1) as nat;
        let kj = (j as int) % n;
        lemma_fifo_fairness(m, p, j);
        lemma_fifo_invariant(m, p, j);
        let s = m.run(j);
        lemma_rearming_step(s, p);
        lemma_rotated_step(m.queue, kj);
        lemma_fundamental_div_mod(j as int, n);
        let u = (j as int) / n;
        assert(j as int == n * u + kj);
        if kj + 1 == n {
            assert(i as int == (u + 1) * n + 0) by (nonlinear_arith)
                requires
                    j as int == n * u + kj,
                    kj + 1 == n,
                    i as int == j as int + 1,
            ;
            lemma_fundamental_div_mod_converse(i as int, n, u + 1, 0);
            assert(k == 0);
        } else {
            assert(i as int == u * n + (kj + 1)) by (nonlinear_arith)
                requires
                    j as int == n * u + kj,
                    i as int == j as int + 1,
            ;
            lemma_fundamental_div_mod_converse(i as int, n, u, kj + 1);
            assert(k == kj + 1);
        }
        assert(s.step().queue == rotated(m.queue, k));
        assert(rotated(m.queue, k)[0] == m.queue[k]) by {
            lemma_rotated_step(m.queue, k);
        }
    }
}

/// Exactly-once progress per scheduling step.
///
/// A step on an empty queue leaves the executor unchanged; a step on a
/// non-empty queue advances the head task's routine by exactly one poll
/// step and leaves the record of every other task untouched.
pub proof fn lemma_single_step_progress<R: Routine>(m: ExecutorModel<R>)
    requires
        m.wf(),
    ensures
        m.queue.len() == 0 ==> m.step() == m && m.polled_id() is None,
        m.queue.len() > 0 ==> m.polled_id() == Some(m.queue[0]),
        m.queue.len() > 0 ==> m.step().tasks[m.queue[0] as int].routine == Some(
            m.tasks[m.queue[0] as int].routine.unwrap().stepped(),
        ),
        m.queue.len() > 0 ==> forall|j: int|
            0 <= j < m.tasks.len() && j != m.queue[0] as int ==> m.step().tasks[j] == m.tasks[j],
        m.step().tasks.len() == m.tasks.len(),
{
    if m.queue.len() > 0 {
        assert(m.registered(m.queue[0] as int));
    }
}

/// A task whose handle is absent from the queue is never polled and its
/// record never changes, however many scheduling steps follow.
proof fn lemma_absent_stays_absent<R: Routine>(m: ExecutorModel<R>, t: usize, n: nat)
    requires
        m.wf(),
        !m.queue.contains(t),
    ensures
        m.run(n).wf(),
        !m.run(n).queue.contains(t),
        m.run(n).polled_id() != Some(t),
        m.run(n).tasks.len() == m.tasks.len(),
        t < m.tasks.len() ==> m.run(n).tasks[t as int] == m.tasks[t as int],
    decreases n,
{
    if n == 0 {
        if m.queue.len() > 0 {
            assert(m.queue[0] == m.queue[0]);
            assert(m.queue.contains(m.queue[0]));
        }
    } else {
        let j = (n - 1) as nat;
        lemma_absent_stays_absent(m, t, j);
        let s = m.run(j);
        s.lemma_step_wf();
        if s.queue.len() > 0 {
            let h = s.queue[0];
            assert(s.queue.contains(h));
            assert(h != t);
            assert(s.registered(h as int));
            assert forall|x: int| 0 <= x < s.step().queue.len() implies s.step().queue[x] != t by {
                if x < s.queue.len() - 1 {
                    assert(s.step().queue[x] == s.queue[x + 1]);
                    assert(s.queue.contains(s.queue[x + 1]));
                } else {
                    assert(s.step().queue[x] == h || s.step().queue[x] == s.queue[x + 1]);
                    if s.step().queue[x] == s.queue[x + 1] {
                        assert(s.queue.contains(s.queue[x + 1]));
                    }
                }
            }
            if s.step().queue.contains(t) {
                let w = choose|w: int|
                    0 <= w < s.step().queue.len() && s.step().queue[w] == t;
                assert(false);
            }
            if s.step().queue.len() > 0 {
                assert(s.step().queue[0] != t);
            }
        }
    }
}

/// Deregistration is final.
///
/// Once a task's guard has been released, no later scheduling step ever
/// observes the task — it is never the polled one — and its record stays
/// vacated, even if the task had a resumption pending (was linked) at the
/// moment of release.
pub proof fn lemma_deregistration<R: Routine>(m: ExecutorModel<R>, t: usize, n: nat)
    requires
        m.wf(),
    ensures
        m.after_release(t).run(n).polled_id() != Some(t),
        m.registered(t as int) ==> m.after_release(t).run(n).tasks[t as int].routine is None,
{
    let d = m.after_release(t);
    m.lemma_release_wf(t);
    if m.registered(t as int) {
        m.queue.index_of_first_ensures(t);
        match m.queue.index_of_first(t) {
            Some(idx) => {
                let q = m.queue.remove(idx);
                assert forall|x: int| 0 <= x < q.len() implies q[x] != t by {
                    if x < idx {
                        assert(q[x] == m.queue[x]);
                        assert(m.queue[x] != m.queue[idx]);
                    } else {
                        assert(q[x] == m.queue[x + 1]);
                        assert(m.queue[x + 1] != m.queue[idx]);
                    }
                }
                if d.queue.contains(t) {
                    let w = choose|w: int| 0 <= w < d.queue.len() && d.queue[w] == t;
                    assert(false);
                }
            },
            None => {},
        }
        lemma_absent_stays_absent(d, t, n);
    } else {
        if m.queue.contains(t) {
            let w = choose|w: int| 0 <= w < m.queue.len() && m.queue[w] == t;
            assert(m.registered(m.queue[w] as int));
            assert(false);
        }
        lemma_absent_stays_absent(d, t, n);
    }
}

/// Re-entrant wake-ups take effect on a later step, not the current one.
///
/// A task that invokes its own wake handle from within its poll is linked
/// again, but at the tail of the queue: the step polls it exactly once,
/// every other previously queued task now stands in front of it, and with
/// more than one task queued the very next step polls a different task.
pub proof fn lemma_reentrant_wake<R: Routine>(m: ExecutorModel<R>)
    requires
        m.wf(),
        m.queue.len() > 0,
        m.tasks[m.queue[0] as int].routine.unwrap().wakes_now(),
    ensures
        m.polled_id() == Some(m.queue[0]),
        m.step().tasks[m.queue[0] as int].linked,
        m.step().queue.len() == m.queue.len(),
        m.step().queue[m.queue.len() - 1] == m.queue[0],
        forall|i: int| 0 <= i < m.queue.len() - 1 ==> m.step().queue[i] == m.queue[i + 1],
        m.queue.len() > 1 ==> m.step().polled_id() != Some(m.queue[0]),
{
    assert(m.registered(m.queue[0] as int));
    if m.queue.len() > 1 {
        assert(m.step().queue[0] == m.queue[1]);
        assert(m.queue[1] != m.queue[0]);
    }
}

/// Teardown neutralises the wake handles of every linked task.
///
/// A task linked in the queue at the moment of teardown ends with an inert
/// wake slot, and invoking a wake handle for it afterwards changes nothing
/// at all — a documented no-op, not a crash.
pub proof fn lemma_teardown_inert<R: Routine>(m: ExecutorModel<R>, t: usize)
    requires
        m.wf(),
        t < m.tasks.len(),
        m.tasks[t as int].linked,
    ensures
        m.after_shutdown().tasks[t as int].wake is Inert,
        !m.after_shutdown().tasks[t as int].linked,
        m.after_shutdown().after_wake(WakeHandle::Live { task: t }) == m.after_shutdown(),
{
}

/// The well-formedness and discipline facts carried along the run.
proof fn lemma_fifo_invariant<R: Routine>(m: ExecutorModel<R>, p: spec_fn(R) -> bool, i: nat)
    requires
        m.wf(),
        rearming::<R>(p),
        queued_satisfy(m, p),
        m.queue.len() > 0,
    ensures
        m.run(i).wf(),
        queued_satisfy(m.run(i), p),
        m.run(i).queue.len() == m.queue.len(),
    decreases i,
{
    if i > 0 {
        let j = (i - 1) as nat;
        lemma_fifo_invariant(m, p, j);
        lemma_rearming_step(m.run(j), p);
    }
}

} // verus!
