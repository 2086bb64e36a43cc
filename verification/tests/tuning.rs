use embedded_executor::cache::{Cache, FixedCache, NoCache};
use embedded_executor::key_frequencies::{c0_period, c1_period, index_to_period, MicrosPeriod};
use embedded_executor::search::{SearchState, SearchStep};
use embedded_executor::table::{Table, C4_TO_C9};

#[test]
fn zero_is_not_a_period() {
    assert!(MicrosPeriod::new(0).is_none());
    let p = MicrosPeriod::new(440).expect("non-zero");
    assert_eq!(p.get(), 440);
}

#[test]
fn periods_order_as_their_micros() {
    let slow = MicrosPeriod::new(3822).expect("non-zero");
    let fast = MicrosPeriod::new(119).expect("non-zero");
    assert!(fast < slow);
    assert_eq!(slow, MicrosPeriod::new(3822).expect("non-zero"));
}

#[test]
fn key_periods_match_the_equal_tempered_scale() {
    // Key 48 (C4) sounds at roughly 261.6 Hz: 3822 microseconds.
    assert_eq!(index_to_period(0).get(), 3822);
    // One octave up the period halves (up to rounding).
    assert_eq!(index_to_period(12).get(), 1911);
    // Key 97 rounds downward from a fraction just under one half.
    assert_eq!(index_to_period(49).get(), 225);
    // The top of the range, key 108 (C9).
    assert_eq!(index_to_period(60).get(), 119);
    for i in 0..C4_TO_C9 {
        assert!(index_to_period(i).get() > 0);
    }
}

#[test]
fn no_cache_retains_nothing() {
    let mut cache: NoCache<u8> = NoCache::new();
    let p = MicrosPeriod::new(902).expect("non-zero");
    assert_eq!(cache.get(17), None);
    cache.set(17, p);
    assert_eq!(cache.get(17), None);
}

#[test]
fn fixed_cache_returns_what_was_stored() {
    let mut cache: FixedCache<u8, 8> = FixedCache::new();
    let p = MicrosPeriod::new(902).expect("non-zero");
    let q = MicrosPeriod::new(851).expect("non-zero");
    for i in 0..8 {
        assert_eq!(cache.get(i), None);
    }
    cache.set(3, p);
    assert_eq!(cache.get(3), Some(p));
    assert_eq!(cache.get(2), None);
    assert_eq!(cache.get(4), None);
    cache.set(3, q);
    assert_eq!(cache.get(3), Some(q), "a later store replaces the earlier one");
}

#[test]
fn default_caches_start_empty() {
    let no: NoCache<u8> = Default::default();
    assert_eq!(no.get(0), None);
    let fixed: FixedCache<u8, 4> = Default::default();
    assert_eq!(fixed.get(0), None);
    assert_eq!(fixed.get(3), None);
}

#[test]
fn table_starts_uniform() {
    let t: Table<u16> = Table::new(7);
    assert_eq!(t.c0, 7);
    assert_eq!(t.c1, 7);
    assert_eq!(t.c4_to_c9_with_filler.len(), C4_TO_C9 + 1);
    for v in t.c4_to_c9_with_filler.iter() {
        assert_eq!(*v, 7);
    }
}

#[test]
fn table_filler_mirrors_last_entry() {
    let mut t: Table<u16> = Table::new(0);
    for i in 0..C4_TO_C9 {
        t.c4_to_c9_with_filler[i] = index_to_period(i).get();
    }
    t.c4_to_c9_with_filler[C4_TO_C9] = t.c4_to_c9_with_filler[C4_TO_C9 - 1];
    assert_eq!(t.c4_to_c9_with_filler[C4_TO_C9], 119);
    assert_eq!(t.c4_to_c9_with_filler[0], 3822);
}

fn run_search(measurements: &[u16], low: u32, high: u32, target: u16) -> u32 {
    let target = MicrosPeriod::new(target).expect("non-zero target");
    let mut state = SearchState::new(low, high, target);
    loop {
        let probe = state.probe();
        let measured =
            MicrosPeriod::new(measurements[probe as usize]).expect("non-zero measurement");
        match state.advance(measured) {
            SearchStep::Continue(next) => state = next,
            SearchStep::Done(dac) => return dac,
        }
    }
}

#[test]
fn search_stops_at_the_crossing() {
    // Periods fall as the control value rises; the crossing for a target
    // of 22 microseconds sits between control values 3 and 4.
    let f = [40u16, 35, 30, 25, 20, 15, 10, 5];
    assert_eq!(run_search(&f, 0, 7, 22), 3);
    // An exact hit is chosen itself.
    assert_eq!(run_search(&f, 0, 7, 20), 4);
    // A target above every measurement ends at the lower end.
    assert_eq!(run_search(&f, 0, 7, 50), 0);
    // A target below every measurement ends at the upper end.
    assert_eq!(run_search(&f, 0, 7, 5), 7);
}

#[test]
fn search_handles_plateaus_and_small_intervals() {
    let plateau = [30u16, 20, 20, 20, 10, 10, 10, 5];
    assert_eq!(run_search(&plateau, 0, 7, 20), 1);
    // A one-wide interval only runs the concluding check: the upper end
    // is chosen exactly when its period still reaches the target.
    let f = [40u16, 35, 30, 25, 20, 15, 10, 5];
    assert_eq!(run_search(&f, 2, 3, 25), 3);
    assert_eq!(run_search(&f, 2, 3, 28), 2);
    // A single-point interval decides that point.
    assert_eq!(run_search(&f, 4, 4, 20), 4);
}

#[test]
fn reference_periods_follow_the_scale() {
    // C0 sounds at roughly 32.70 Hz, C1 one octave higher.
    assert_eq!(c0_period().get(), 30578);
    assert_eq!(c1_period().get(), 15289);
}
