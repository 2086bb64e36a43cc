//! A cooperative task executor for environments without an operating-system
//! scheduler, together with the small numeric helpers used around it.
//!
//! The executor drives independently written asynchronous routines from one
//! polling loop. Task records are kept in an arena indexed by stable integer
//! handles; the ready queue is a first-in-first-out list of those handles, so
//! a record that leaves the arena invalidates its handle instead of leaving a
//! dangling reference reachable from the queue or from a stale wake handle.
//! Every scheduling operation is specified against a mathematical model of
//! the executor state, and the scheduling guarantees (fairness, progress,
//! deregistration, re-entrancy, teardown) are proved once and for all over
//! that model.

pub mod cache;
pub mod counter;
pub mod erased_future;
pub mod executor;
pub mod guarantees;
pub mod key_frequencies;
pub mod routine;
pub mod search;
pub mod table;
pub mod yield_now;
