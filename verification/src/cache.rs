//! Period caches for the tuning search.
//!
//! A cache answers, for a small index domain, the period measured earlier
//! for that index. [`NoCache`] retains nothing and always misses;
//! [`FixedCache`] retains one optional period per index in a fixed-size
//! store. The trait states both behaviours exactly: a storing cache returns
//! on `get` precisely what was last `set` for that index, and a
//! non-storing cache never returns anything.

use core::marker::PhantomData;

use vstd::prelude::*;

use crate::key_frequencies::MicrosPeriod;

verus! {

/// A lookup store of measured periods, indexed by a bounded index domain.
pub trait Cache: Sized {
    /// Whether this cache retains what is stored into it.
    spec fn stores() -> bool;

    /// Whether `index` lies in this cache's index domain.
    spec fn valid_index(&self, index: usize) -> bool;

    /// The period this cache currently holds for `index`.
    spec fn entry(&self, index: usize) -> Option<MicrosPeriod>;

    /// Look up the period held for `index`.
    fn get(&self, index: usize) -> (p: Option<MicrosPeriod>)
        requires
            self.valid_index(index),
        ensures
            p == self.entry(index),
    ;

    /// Store `value` as the period for `index`.
    fn set(&mut self, index: usize, value: MicrosPeriod)
        requires
            old(self).valid_index(index),
        ensures
            forall|j: usize| final(self).valid_index(j) == old(self).valid_index(j),
            Self::stores() ==> final(self).entry(index) == Some(value),
            Self::stores() ==> forall|j: usize|
                j != index ==> #[trigger] final(self).entry(j) == old(self).entry(j),
            !Self::stores() ==> forall|j: usize| #[trigger]
                final(self).entry(j) == old(self).entry(j),
    ;
}

/// A cache that retains nothing: every lookup misses and every store is
/// dropped. The index type parameter only names the index domain this
/// stands in for; no index is ever rejected.
pub struct NoCache<Index>(PhantomData<Index>);

impl<Index> NoCache<Index> {
    /// The (stateless) empty cache.
    pub fn new() -> (c: NoCache<Index>)
        ensures
            forall|j: usize| c.entry(j) is None,
    {
        NoCache(PhantomData)
    }
}

impl<Index> Default for NoCache<Index> {
    fn default() -> (c: NoCache<Index>)
        ensures
            forall|j: usize| c.entry(j) is None,
    {
        NoCache::new()
    }
}

impl<Index> Cache for NoCache<Index> {
    open spec fn stores() -> bool {
        false
    }

    open spec fn valid_index(&self, index: usize) -> bool {
        true
    }

    open spec fn entry(&self, index: usize) -> Option<MicrosPeriod> {
        None
    }

    fn get(&self, index: usize) -> (p: Option<MicrosPeriod>) {
        None
    }

    fn set(&mut self, index: usize, value: MicrosPeriod) {
    }
}

/// A cache holding one optional period for each index below `SIZE`.
/// The index type parameter names the index domain this store is sized
/// for; indexes at or above `SIZE` are outside the domain.
pub struct FixedCache<Index, const SIZE: usize> {
    periods: Vec<Option<MicrosPeriod>>,
    phantom: PhantomData<Index>,
}

impl<Index, const SIZE: usize> FixedCache<Index, SIZE> {
    /// A cache of `SIZE` empty entries.
    pub fn new() -> (c: FixedCache<Index, SIZE>)
        ensures
            forall|j: usize| c.valid_index(j) == (j < SIZE),
            forall|j: usize| j < SIZE ==> c.entry(j) is None,
    {
        let mut periods: Vec<Option<MicrosPeriod>> = Vec::new();
        let mut i: usize = 0;
        while i < SIZE
            invariant
                i <= SIZE,
                periods@.len() == i,
                forall|j: int| 0 <= j < i ==> periods@[j] is None,
            decreases SIZE - i,
        {
            periods.push(None);
            i = i + 1;
        }
        FixedCache { periods, phantom: PhantomData }
    }
}

impl<Index, const SIZE: usize> Default for FixedCache<Index, SIZE> {
    fn default() -> (c: FixedCache<Index, SIZE>)
        ensures
            forall|j: usize| c.valid_index(j) == (j < SIZE),
            forall|j: usize| j < SIZE ==> c.entry(j) is None,
    {
        FixedCache::new()
    }
}

impl<Index, const SIZE: usize> Cache for FixedCache<Index, SIZE> {
    open spec fn stores() -> bool {
        true
    }

    closed spec fn valid_index(&self, index: usize) -> bool {
        self.periods@.len() == SIZE && index < SIZE
    }

    closed spec fn entry(&self, index: usize) -> Option<MicrosPeriod> {
        if index < self.periods@.len() {
            self.periods@[index as int]
        } else {
            None
        }
    }

    fn get(&self, index: usize) -> (p: Option<MicrosPeriod>) {
        self.periods[index]
    }

    fn set(&mut self, index: usize, value: MicrosPeriod) {
        self.periods[index] = Some(value);
    }
}

} // verus!
