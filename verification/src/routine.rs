//! The capability interface between the executor and the routines it drives.
//!
//! A routine is advanced one step at a time: each poll either completes it or
//! leaves it suspended, and a suspended routine must arrange its own
//! resumption by invoking the wake handle offered through the poll context.
//! The trait carries a specification of each routine's single-step behaviour,
//! so the executor's scheduling contracts can speak precisely about what one
//! poll does to the polled routine and to the ready queue.

use vstd::prelude::*;

verus! {

/// Outcome of a single poll: the routine either finished its work or is
/// suspended until it is resumed through a wake handle.
#[derive(Clone, Copy, Debug, PartialEq, Eq, Structural)]
pub enum Poll {
    Ready,
    Pending,
}

/// A capability that requests the resumption of one task.
///
/// A live handle carries the stable arena handle of the task it resumes; an
/// inert handle does nothing when invoked. Handles are plain values: they may
/// be copied freely, and invoking a stale one is a checked no-op rather than
/// a dangling-pointer dereference.
#[derive(Clone, Copy, Debug, PartialEq, Eq, Structural)]
pub enum WakeHandle {
    /// Invoking this handle does nothing.
    Inert,
    /// Invoking this handle requests that the task with this arena handle be
    /// linked back into the ready queue.
    Live { task: usize },
}

/// The context handed to a routine for the duration of one poll.
///
/// It identifies the task being polled and records whether the routine
/// invoked its wake handle during the poll; the executor reads that flag
/// when the poll returns and re-links the task accordingly.
pub struct PollContext {
    task: usize,
    woken: bool,
}

impl PollContext {
    /// The arena handle of the task being polled.
    pub closed spec fn task(self) -> usize {
        self.task
    }

    /// Whether the routine has requested its own resumption in this poll.
    pub closed spec fn is_woken(self) -> bool {
        self.woken
    }

    /// A fresh context for one poll of the task with the given arena handle.
    pub fn new(task: usize) -> (cx: PollContext)
        ensures
            cx.task() == task,
            !cx.is_woken(),
    {
        PollContext { task, woken: false }
    }

    /// Request resumption of the task being polled.
    pub fn wake(&mut self)
        ensures
            final(self).task() == old(self).task(),
            final(self).is_woken(),
    {
        self.woken = true;
    }

    /// A live wake handle bound to the task being polled. A routine may keep
    /// it, or pass it on, so that the task can be resumed later from outside
    /// its own poll.
    pub fn waker(&self) -> (handle: WakeHandle)
        ensures
            handle == (WakeHandle::Live { task: self.task() }),
    {
        WakeHandle::Live { task: self.task }
    }

    /// Whether the wake handle has been invoked during this poll.
    pub fn woken(&self) -> (w: bool)
        ensures
            w == self.is_woken(),
    {
        self.woken
    }
}

/// An asynchronous routine as the executor sees it: a value that can be
/// polled once per scheduling step and signals completion or suspension.
///
/// The three specification functions describe the routine's next step:
/// `stepped` is its state after one poll, `completes_now` tells whether that
/// poll returns [`Poll::Ready`], and `wakes_now` tells whether it invokes the
/// wake handle it is offered. Every implementation proves that `poll` behaves
/// exactly as these functions say, which is what lets the executor's
/// contracts pin down the effect of a whole scheduling step.
pub trait Routine: Sized {
    /// The routine's state after one more poll.
    spec fn stepped(self) -> Self;

    /// Whether the next poll completes the routine.
    spec fn completes_now(self) -> bool;

    /// Whether the next poll invokes the offered wake handle.
    spec fn wakes_now(self) -> bool;

    /// Advance the routine by exactly one step.
    fn poll(&mut self, cx: &mut PollContext) -> (status: Poll)
        ensures
            *final(self) == old(self).stepped(),
            status is Ready <==> old(self).completes_now(),
            final(cx).is_woken() == (old(cx).is_woken() || old(self).wakes_now()),
            final(cx).task() == old(cx).task(),
    ;
}

} // verus!
