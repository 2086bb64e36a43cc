//! The minimal suspension point.
//!
//! The first poll reports "not ready" and immediately requests resumption;
//! the second poll completes. A routine that begins with this step is
//! guaranteed to go through one full suspend/resume cycle before doing real
//! work, which the spawn protocol uses to make sure a task is fully linked
//! into the ready queue before its routine runs.

use vstd::prelude::*;

use crate::routine::{Poll, PollContext, Routine};

verus! {

/// A routine that yields exactly once and completes on its second poll.
#[derive(Clone, Copy, Debug, PartialEq, Eq, Structural)]
pub struct YieldNow {
    /// Whether the single yield has already happened.
    pub yielded: bool,
}

impl Routine for YieldNow {
    open spec fn stepped(self) -> Self {
        YieldNow { yielded: true }
    }

    open spec fn completes_now(self) -> bool {
        self.yielded
    }

    open spec fn wakes_now(self) -> bool {
        !self.yielded
    }

    fn poll(&mut self, cx: &mut PollContext) -> (status: Poll) {
        if self.yielded {
            Poll::Ready
        } else {
            self.yielded = true;
            cx.wake();
            Poll::Pending
        }
    }
}

/// A fresh single-yield routine: suspends on its first poll after requesting
/// resumption, completes on its second.
pub fn yield_now() -> (y: YieldNow)
    ensures
        !y.yielded,
{
    YieldNow { yielded: false }
}

} // verus!
