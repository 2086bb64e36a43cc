//! The decision core of the calibration search.
//!
//! Calibration looks for the control value whose measured period crosses a
//! target period, by bisecting an interval of control values. Measuring a
//! period means driving the oscillator and timing it — outside work that
//! suspends between steps — so the search stands here as a state machine:
//! [`SearchState::probe`] names the value to measure next, and
//! [`SearchState::advance`] takes the measured period back and either
//! narrows the interval or ends the search. The driver that performs the
//! measurements owns the loop; every decision it relays is verified here,
//! and [`lemma_search_finds_crossing`] shows the whole exchange converges
//! to the crossing point whenever the measurements do not increase with
//! the control value.

use vstd::arithmetic::div_mod::{lemma_fundamental_div_mod, lemma_fundamental_div_mod_converse};
use vstd::prelude::*;

use crate::key_frequencies::MicrosPeriod;

verus! {

/// An inclusive interval of control values still in play, and the period
/// sought.
pub struct SearchState {
    /// Smallest control value still in play.
    pub low: u32,
    /// Largest control value still in play.
    pub high: u32,
    /// The period the search aims for.
    pub target: MicrosPeriod,
}

/// What one feedback step decides.
pub enum SearchStep {
    /// Keep measuring: the search goes on over a narrowed interval.
    Continue(SearchState),
    /// The search is over with this control value.
    Done(u32),
}

/// The midpoint of the interval, rounded down.
pub open spec fn spec_midpoint(low: u32, high: u32) -> u32 {
    (((low + high) / 2) as u32)
}

/// What the whole search decides when probing `d` always measures `f(d)`
/// microseconds and the period sought is `t` microseconds.
pub open spec fn search_result(f: spec_fn(u32) -> u16, t: u16, low: u32, high: u32) -> u32
    recommends
        low <= high,
    decreases high - low,
{
    if high - low <= 1 {
        if f(high) >= t {
            high
        } else {
            low
        }
    } else {
        let mid = spec_midpoint(low, high);
        if f(mid) <= t {
            search_result(f, t, low, mid)
        } else {
            search_result(f, t, mid, high)
        }
    }
}

impl SearchState {
    /// The interval is ordered.
    pub open spec fn wf(self) -> bool {
        self.low <= self.high
    }

    /// The control value the driver must measure next.
    pub open spec fn spec_probe(self) -> u32 {
        if self.high - self.low <= 1 {
            self.high
        } else {
            spec_midpoint(self.low, self.high)
        }
    }

    /// The decision taken on the period measured at the probe point.
    pub open spec fn spec_advance(self, measured: MicrosPeriod) -> SearchStep {
        if self.high - self.low <= 1 {
            if measured.micros() >= self.target.micros() {
                SearchStep::Done(self.high)
            } else {
                SearchStep::Done(self.low)
            }
        } else {
            let mid = spec_midpoint(self.low, self.high);
            if self.target.micros() >= measured.micros() {
                SearchStep::Continue(SearchState { low: self.low, high: mid, target: self.target })
            } else {
                SearchStep::Continue(SearchState { low: mid, high: self.high, target: self.target })
            }
        }
    }

    /// Start a search over the inclusive interval from `low` to `high`.
    pub fn new(low: u32, high: u32, target: MicrosPeriod) -> (s: SearchState)
        requires
            low <= high,
        ensures
            s == (SearchState { low, high, target }),
            s.wf(),
    {
        SearchState { low, high, target }
    }

    /// The control value to measure next: the midpoint while the interval
    /// is wide, its upper end for the concluding check.
    pub fn probe(&self) -> (dac: u32)
        requires
            self.wf(),
        ensures
            dac == self.spec_probe(),
    {
        if self.high - self.low <= 1 {
            self.high
        } else {
            let dac = self.low + (self.high - self.low) / 2;
            proof {
                lemma_midpoint_from_offset(self.low, self.high);
            }
            dac
        }
    }

    /// Feed the period measured at the probe point back into the search.
    ///
    /// While the interval is wide, it is bisected: a measurement at or
    /// under the target keeps the lower half, one over the target keeps
    /// the upper half, and the interval strictly shrinks. Once only two
    /// values remain, the search ends: the upper end if its measured
    /// period still reaches the target, the lower end otherwise.
    pub fn advance(self, measured: MicrosPeriod) -> (step: SearchStep)
        requires
            self.wf(),
        ensures
            step == self.spec_advance(measured),
            step matches SearchStep::Continue(s) ==> s.wf() && self.low <= s.low && s.high
                <= self.high && s.high - s.low < self.high - self.low,
            step matches SearchStep::Done(dac) ==> dac == self.low || dac == self.high,
    {
        if self.high - self.low <= 1 {
            if measured.get() >= self.target.get() {
                SearchStep::Done(self.high)
            } else {
                SearchStep::Done(self.low)
            }
        } else {
            let mid = self.low + (self.high - self.low) / 2;
            proof {
                lemma_midpoint_from_offset(self.low, self.high);
                lemma_midpoint_inside(self.low, self.high);
            }
            if self.target.get() >= measured.get() {
                SearchStep::Continue(SearchState { low: self.low, high: mid, target: self.target })
            } else {
                SearchStep::Continue(SearchState { low: mid, high: self.high, target: self.target })
            }
        }
    }
}

/// Adding half the width to the lower end lands on the midpoint.
proof fn lemma_midpoint_from_offset(low: u32, high: u32)
    requires
        low <= high,
    ensures
        low + (high - low) / 2 == spec_midpoint(low, high),
{
    let d = (high - low) as int;
    lemma_fundamental_div_mod(d, 2);
    lemma_fundamental_div_mod_converse(low + high, 2, low + d / 2, d % 2);
}

/// The midpoint of an interval wider than one lies strictly inside it.
proof fn lemma_midpoint_inside(low: u32, high: u32)
    requires
        low <= high,
        high - low >= 2,
    ensures
        low < spec_midpoint(low, high) < high,
{
    let d = (high - low) as int;
    lemma_fundamental_div_mod(d, 2);
    lemma_fundamental_div_mod_converse(low + high, 2, low + d / 2, d % 2);
}

/// The protocol tracks the mathematical search: one honest feedback step
/// either keeps the final decision unchanged or ends on it.
pub proof fn lemma_advance_tracks_search(s: SearchState, f: spec_fn(u32) -> u16, measured: MicrosPeriod)
    requires
        s.wf(),
        measured.micros() == f(s.spec_probe()),
    ensures
        match s.spec_advance(measured) {
            SearchStep::Continue(n) => n.wf() && search_result(f, s.target.micros(), n.low, n.high)
                == search_result(f, s.target.micros(), s.low, s.high),
            SearchStep::Done(dac) => dac == search_result(f, s.target.micros(), s.low, s.high),
        },
{
    if s.high - s.low >= 2 {
        lemma_midpoint_inside(s.low, s.high);
    }
}

/// The search converges to the crossing point.
///
/// On an interval whose measurements do not increase with the control
/// value and which brackets the target — the period at the lower end
/// reaches it, the period at the upper end does not exceed it — the
/// search's decision is a control value whose period still reaches the
/// target while the very next value's period no longer exceeds it.
pub proof fn lemma_search_finds_crossing(f: spec_fn(u32) -> u16, t: u16, low: u32, high: u32)
    requires
        low <= high,
        f(low) >= t,
        f(high) <= t,
        forall|d1: u32, d2: u32| low <= d1 <= d2 <= high ==> #[trigger] f(d1) >= #[trigger] f(d2),
    ensures
        low <= search_result(f, t, low, high) <= high,
        f(search_result(f, t, low, high)) >= t,
        search_result(f, t, low, high) == high || f((search_result(f, t, low, high) + 1) as u32)
            <= t,
    decreases high - low,
{
    if high - low <= 1 {
    } else {
        let mid = spec_midpoint(low, high);
        lemma_midpoint_inside(low, high);
        if f(mid) <= t {
            lemma_search_finds_crossing(f, t, low, mid);
            let r = search_result(f, t, low, mid);
            if r == mid {
                assert(f(((mid + 1) as u32)) <= f(mid));
            }
        } else {
            lemma_search_finds_crossing(f, t, mid, high);
        }
    }
}

} // verus!
