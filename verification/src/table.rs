//! The tuning table filled in by the calibration routine.
//!
//! One slot for each of the two low reference keys and one for each key of
//! the C4-to-C9 range, plus a single filler slot at the end that mirrors
//! the last real entry so lookups may run one past the range's end.

use vstd::prelude::*;

verus! {

/// Number of keys from C4 to C9.
pub const C4_TO_C9: usize = 61;

/// A tuning table: a calibration value for each supported key.
pub struct Table<T> {
    /// The value for the low reference key C0.
    pub c0: T,
    /// The value for the low reference key C1.
    pub c1: T,
    /// The values for the keys C4 through C9, and one trailing filler slot
    /// that repeats the last real entry.
    pub c4_to_c9_with_filler: [T; 62],
}

impl<T: Copy> Table<T> {
    /// A table with every slot set to `fill`.
    pub fn new(fill: T) -> (t: Table<T>)
        ensures
            t.c0 == fill,
            t.c1 == fill,
            forall|i: int| 0 <= i < 62 ==> t.c4_to_c9_with_filler@[i] == fill,
    {
        Table { c0: fill, c1: fill, c4_to_c9_with_filler: [fill; 62] }
    }
}

} // verus!
