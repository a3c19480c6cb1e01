use hvac_core::aggregate::{aggregate, AggregatedValue, WindowSpec};
use hvac_core::sample::Sample;
use hvac_core::store::SampleStore;

fn store_of<const N: usize>(samples: &[(u64, i32)]) -> SampleStore<N> {
    let mut store: SampleStore<N> = SampleStore::new();
    for &(timestamp, value) in samples {
        store.append(Sample { timestamp, value });
    }
    store
}

#[test]
fn aggregate_of_empty_store_is_none() {
    let store: SampleStore<8> = SampleStore::new();
    assert_eq!(aggregate(&store, 1000, &WindowSpec { duration: 600 }), None);
}

#[test]
fn aggregate_with_no_sample_in_window_is_none() {
    let store: SampleStore<8> = store_of(&[(10, 20000), (20, 21000)]);
    assert_eq!(aggregate(&store, 1000, &WindowSpec { duration: 100 }), None);
}

#[test]
fn aggregate_is_exact_mean_of_window() {
    let store: SampleStore<8> = store_of(&[(100, 16000), (200, 17000), (300, 18500)]);
    let mean = aggregate(&store, 300, &WindowSpec { duration: 300 });
    assert_eq!(mean, Some(AggregatedValue { sum: 51500, count: 3 }));
    let float_mean = 51500.0_f64 / 3.0;
    let expected = (16.0_f64 + 17.0 + 18.5) / 3.0 * 1000.0;
    assert!((float_mean - expected).abs() < 1e-9);
}

#[test]
fn aggregate_leaves_out_samples_outside_window() {
    let store: SampleStore<8> =
        store_of(&[(100, 1000), (200, 2000), (300, 3000), (400, 4000), (500, 5000)]);
    let mean = aggregate(&store, 400, &WindowSpec { duration: 150 });
    assert_eq!(mean, Some(AggregatedValue { sum: 7000, count: 2 }));
}

#[test]
fn aggregate_of_single_sample() {
    let store: SampleStore<2> = store_of(&[(7, -2500)]);
    assert_eq!(
        aggregate(&store, 7, &WindowSpec { duration: 0 }),
        Some(AggregatedValue { sum: -2500, count: 1 })
    );
}

#[test]
fn aggregate_of_negative_and_positive_values() {
    let store: SampleStore<4> = store_of(&[(1, -3000), (2, 1000), (3, 500)]);
    assert_eq!(
        aggregate(&store, 3, &WindowSpec { duration: 10 }),
        Some(AggregatedValue { sum: -1500, count: 3 })
    );
}

#[test]
fn aggregate_sees_only_retained_samples() {
    let store: SampleStore<2> = store_of(&[(1, 100), (2, 200), (3, 300)]);
    assert_eq!(
        aggregate(&store, 3, &WindowSpec { duration: 10 }),
        Some(AggregatedValue { sum: 500, count: 2 })
    );
}

#[test]
fn aggregate_of_extreme_values_does_not_overflow() {
    let mut store: SampleStore<16> = SampleStore::new();
    for t in 0..16u64 {
        store.append(Sample { timestamp: t, value: i32::MAX });
    }
    assert_eq!(
        aggregate(&store, 15, &WindowSpec { duration: 15 }),
        Some(AggregatedValue { sum: 16 * (i32::MAX as i128), count: 16 })
    );
    let mut low: SampleStore<16> = SampleStore::new();
    for t in 0..16u64 {
        low.append(Sample { timestamp: t, value: i32::MIN });
    }
    assert_eq!(
        aggregate(&low, 15, &WindowSpec { duration: 15 }),
        Some(AggregatedValue { sum: 16 * (i32::MIN as i128), count: 16 })
    );
}

#[test]
fn mean_comparisons_are_exact() {
    let third = AggregatedValue { sum: 10, count: 3 };
    assert!(third.below(4));
    assert!(!third.below(3));
    assert!(third.above(3));
    assert!(!third.above(4));
    assert!(third.at_least(3));
    assert!(!third.at_least(4));
    assert!(third.at_most(4));
    assert!(!third.at_most(3));
    let whole = AggregatedValue { sum: 12, count: 3 };
    assert!(!whole.below(4));
    assert!(!whole.above(4));
    assert!(whole.at_least(4));
    assert!(whole.at_most(4));
}

#[test]
fn mean_comparisons_with_negative_values() {
    let m = AggregatedValue { sum: -10, count: 3 };
    assert!(m.below(-3));
    assert!(!m.below(-4));
    assert!(m.above(-4));
    assert!(m.at_most(-3));
    assert!(m.at_least(-4));
}

#[test]
fn mean_comparisons_at_the_limits_of_the_types() {
    let m = AggregatedValue { sum: 0, count: u64::MAX };
    assert!(m.below(i64::MAX));
    assert!(m.above(i64::MIN));
    assert!(!m.below(i64::MIN));
    assert!(!m.above(i64::MAX));
}
