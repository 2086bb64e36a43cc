//! A perpetually re-arming worker routine.
//!
//! It yields once to settle into the queue, and from its second poll onward
//! it bumps its counter and requests resumption again on every step, so it
//! never completes. Two of these spawned in order make the round-robin
//! schedule directly observable: their counters advance in lock step.

use vstd::prelude::*;

use crate::routine::{Poll, PollContext, Routine};

verus! {

/// A routine that yields once and from that point on increments its counter
/// by one per poll, requesting resumption every time.
#[derive(Clone, Copy, Debug, PartialEq, Eq, Structural)]
pub struct Counter {
    /// Whether the initial settling yield has already happened.
    pub started: bool,
    /// Number of increments performed so far; saturates at the type's
    /// maximum instead of wrapping.
    pub count: u64,
}

impl Counter {
    /// A fresh counter routine that has not yet settled.
    pub fn new() -> (c: Counter)
        ensures
            !c.started,
            c.count == 0,
    {
        Counter { started: false, count: 0 }
    }
}

impl Routine for Counter {
    open spec fn stepped(self) -> Self {
        if !self.started {
            Counter { started: true, count: self.count }
        } else if self.count < u64::MAX {
            Counter { started: true, count: (self.count + 1) as u64 }
        } else {
            self
        }
    }

    open spec fn completes_now(self) -> bool {
        false
    }

    open spec fn wakes_now(self) -> bool {
        true
    }

    fn poll(&mut self, cx: &mut PollContext) -> (status: Poll) {
        if !self.started {
            self.started = true;
        } else if self.count < u64::MAX {
            self.count = self.count + 1;
        }
        cx.wake();
        Poll::Pending
    }
}

} // verus!
