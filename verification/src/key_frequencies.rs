//! Key periods of the equal-tempered scale.
//!
//! A key's period is the reciprocal of its frequency, expressed in whole
//! microseconds and never zero. The frequencies themselves follow the
//! equal-tempered scale (key 57 at 440 Hz, doubling every twelve keys);
//! deriving a period from a key number takes floating-point evaluation of
//! the scale, which stays outside the verifier, so the periods used by the
//! tuning table stand here as precomputed constants.

use vstd::prelude::*;

verus! {

/// A key period in whole microseconds, always positive.
#[derive(Clone, Copy, Debug, PartialEq, Eq, Structural, PartialOrd, Ord)]
pub struct MicrosPeriod {
    micros: u16,
}

impl MicrosPeriod {
    /// The period in microseconds.
    pub closed spec fn micros(self) -> u16 {
        self.micros
    }

    /// Wrap a microsecond count; zero is not a period.
    pub fn new(micros: u16) -> (p: Option<MicrosPeriod>)
        ensures
            micros == 0 <==> p is None,
            micros != 0 ==> (p matches Some(per) && per.micros() == micros),
    {
        if micros == 0 {
            None
        } else {
            Some(MicrosPeriod { micros })
        }
    }

    /// The period in microseconds.
    pub fn get(&self) -> (m: u16)
        ensures
            m == self.micros(),
    {
        self.micros
    }
}

/// The period of the low reference key C0 (key 12), in microseconds.
pub const C0_PERIOD: u16 = 30578;

/// The period of the low reference key C1 (key 24), in microseconds.
pub const C1_PERIOD: u16 = 15289;

/// The period of the low reference key C0 as a [`MicrosPeriod`].
pub fn c0_period() -> (p: MicrosPeriod)
    ensures
        p.micros() == C0_PERIOD,
{
    MicrosPeriod { micros: C0_PERIOD }
}

/// The period of the low reference key C1 as a [`MicrosPeriod`].
pub fn c1_period() -> (p: MicrosPeriod)
    ensures
        p.micros() == C1_PERIOD,
{
    MicrosPeriod { micros: C1_PERIOD }
}

/// The periods of the keys from C4 to C9, head of the range first, in
/// microseconds: the precomputed values of the equal-tempered scale for
/// keys 48 through 108.
pub open spec fn c4_to_c9_period_table() -> Seq<u16> {
    seq![
        3822u16, 3608, 3405, 3214, 3034, 2863, 2703, 2551, 2408, 2273, 2145, 2025, 1911, 1804,
        1703, 1607, 1517, 1432, 1351, 1276, 1204, 1136, 1073, 1012, 956, 902, 851, 804, 758, 716,
        676, 638, 602, 568, 536, 506, 478, 451, 426, 402, 379, 358, 338, 319, 301, 284, 268, 253,
        239, 225, 213, 201, 190, 179, 169, 159, 150, 142, 134, 127, 119,
    ]
}

/// The period of the `i`-th key of the C4-to-C9 range.
pub fn index_to_period(i: usize) -> (p: MicrosPeriod)
    requires
        i < 61,
    ensures
        p.micros() == c4_to_c9_period_table()[i as int],
        p.micros() > 0,
{
    let table: [u16; 61] = [
        3822u16, 3608, 3405, 3214, 3034, 2863, 2703, 2551, 2408, 2273, 2145, 2025, 1911, 1804,
        1703, 1607, 1517, 1432, 1351, 1276, 1204, 1136, 1073, 1012, 956, 902, 851, 804, 758, 716,
        676, 638, 602, 568, 536, 506, 478, 451, 426, 402, 379, 358, 338, 319, 301, 284, 268, 253,
        239, 225, 213, 201, 190, 179, 169, 159, 150, 142, 134, 127, 119,
    ];
    proof {
        assert(table@ =~= c4_to_c9_period_table());
    }
    let micros = table[i];
    MicrosPeriod { micros }
}

} // verus!
