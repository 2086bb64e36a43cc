//! Type erasure for heterogeneous routines.
//!
//! The executor's queue holds tasks of one routine type. To let routines of
//! different concrete types share a single queue, this wrapper hides each
//! concrete routine behind one uniform type with a single [`Routine`]
//! implementation. Erasure is by closed enumeration and static dispatch:
//! verification needs every poll path to be visible to the checker, so the
//! wrapper lists the routine shapes it can carry instead of going through a
//! hand-built virtual-call table over raw pointers.

use vstd::prelude::*;

use crate::counter::Counter;
use crate::routine::{Poll, PollContext, Routine};
use crate::yield_now::YieldNow;

verus! {

/// The concrete routine carried by an [`ErasedFuture`].
#[derive(Clone, Copy, Debug, PartialEq, Eq, Structural)]
pub enum ErasedRoutine {
    /// A single-yield routine.
    Yield(YieldNow),
    /// A perpetual counting routine.
    Count(Counter),
}

/// A routine of hidden concrete type, ready to share a queue with routines
/// of other shapes.
#[derive(Clone, Copy, Debug, PartialEq, Eq, Structural)]
pub struct ErasedFuture {
    /// The erased routine.
    pub routine: ErasedRoutine,
}

impl ErasedFuture {
    /// Erase a single-yield routine.
    pub fn from_yield(y: YieldNow) -> (e: ErasedFuture)
        ensures
            e.routine == ErasedRoutine::Yield(y),
    {
        ErasedFuture { routine: ErasedRoutine::Yield(y) }
    }

    /// Erase a counting routine.
    pub fn from_counter(c: Counter) -> (e: ErasedFuture)
        ensures
            e.routine == ErasedRoutine::Count(c),
    {
        ErasedFuture { routine: ErasedRoutine::Count(c) }
    }
}

impl Routine for ErasedFuture {
    open spec fn stepped(self) -> Self {
        match self.routine {
            ErasedRoutine::Yield(y) => ErasedFuture { routine: ErasedRoutine::Yield(y.stepped()) },
            ErasedRoutine::Count(c) => ErasedFuture { routine: ErasedRoutine::Count(c.stepped()) },
        }
    }

    open spec fn completes_now(self) -> bool {
        match self.routine {
            ErasedRoutine::Yield(y) => y.completes_now(),
            ErasedRoutine::Count(c) => c.completes_now(),
        }
    }

    open spec fn wakes_now(self) -> bool {
        match self.routine {
            ErasedRoutine::Yield(y) => y.wakes_now(),
            ErasedRoutine::Count(c) => c.wakes_now(),
        }
    }

    fn poll(&mut self, cx: &mut PollContext) -> (status: Poll) {
        match &mut self.routine {
            ErasedRoutine::Yield(y) => y.poll(cx),
            ErasedRoutine::Count(c) => c.poll(cx),
        }
    }
}

} // verus!
