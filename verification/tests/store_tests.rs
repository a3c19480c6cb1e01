use hvac_core::sample::Sample;
use hvac_core::store::SampleStore;

fn sample(timestamp: u64, value: i32) -> Sample {
    Sample { timestamp, value }
}

fn contents<const N: usize>(store: &SampleStore<N>) -> Vec<Sample> {
    store.snapshot_since(u64::MAX, u64::MAX).collect()
}

#[test]
fn new_store_is_empty() {
    let store: SampleStore<4> = SampleStore::new();
    assert_eq!(store.len(), 0);
    assert_eq!(store.capacity(), 4);
    assert_eq!(contents(&store), vec![]);
}

#[test]
fn append_below_capacity_keeps_all_in_order() {
    let mut store: SampleStore<4> = SampleStore::new();
    store.append(sample(10, 1));
    store.append(sample(20, 2));
    store.append(sample(30, 3));
    assert_eq!(store.len(), 3);
    assert_eq!(contents(&store), vec![sample(10, 1), sample(20, 2), sample(30, 3)]);
}

#[test]
fn append_at_exact_capacity_keeps_all() {
    let mut store: SampleStore<3> = SampleStore::new();
    store.append(sample(10, 1));
    store.append(sample(20, 2));
    store.append(sample(30, 3));
    assert_eq!(store.len(), 3);
    assert_eq!(contents(&store), vec![sample(10, 1), sample(20, 2), sample(30, 3)]);
}

#[test]
fn append_beyond_capacity_overwrites_oldest() {
    let mut store: SampleStore<3> = SampleStore::new();
    for i in 0..5u64 {
        store.append(sample(i * 10, i as i32));
    }
    assert_eq!(store.len(), 3);
    assert_eq!(contents(&store), vec![sample(20, 2), sample(30, 3), sample(40, 4)]);
}

#[test]
fn long_run_retains_exactly_last_n() {
    let mut store: SampleStore<7> = SampleStore::new();
    let mut written = Vec::new();
    for i in 0..100u64 {
        let s = sample(1000 * i, (i as i32) * 3 - 50);
        store.append(s);
        written.push(s);
        let keep = written.len().min(7);
        assert_eq!(store.len(), keep);
        assert_eq!(contents(&store), written[written.len() - keep..].to_vec());
    }
}

#[test]
fn capacity_one_keeps_only_newest() {
    let mut store: SampleStore<1> = SampleStore::new();
    store.append(sample(1, 11));
    store.append(sample(2, 22));
    assert_eq!(contents(&store), vec![sample(2, 22)]);
}

#[test]
fn capacity_zero_holds_nothing() {
    let mut store: SampleStore<0> = SampleStore::new();
    store.append(sample(1, 11));
    assert_eq!(store.len(), 0);
    assert_eq!(contents(&store), vec![]);
}

#[test]
fn snapshot_returns_only_samples_in_window() {
    let mut store: SampleStore<8> = SampleStore::new();
    for t in [100u64, 200, 300, 400, 500] {
        store.append(sample(t, t as i32));
    }
    let got = store.snapshot_since(400, 200).collect();
    assert_eq!(got, vec![sample(200, 200), sample(300, 300), sample(400, 400)]);
}

#[test]
fn snapshot_window_bounds_are_inclusive() {
    let mut store: SampleStore<8> = SampleStore::new();
    for t in [99u64, 100, 150, 200, 201] {
        store.append(sample(t, 0));
    }
    let got = store.snapshot_since(200, 100).collect();
    assert_eq!(got, vec![sample(100, 0), sample(150, 0), sample(200, 0)]);
}

#[test]
fn snapshot_window_longer_than_now_reaches_back_to_zero() {
    let mut store: SampleStore<4> = SampleStore::new();
    store.append(sample(0, 1));
    store.append(sample(5, 2));
    store.append(sample(11, 3));
    let got = store.snapshot_since(10, 1000).collect();
    assert_eq!(got, vec![sample(0, 1), sample(5, 2)]);
}

#[test]
fn snapshot_with_nothing_in_window_is_empty() {
    let mut store: SampleStore<4> = SampleStore::new();
    store.append(sample(10, 1));
    store.append(sample(20, 2));
    assert_eq!(store.snapshot_since(1000, 100).collect(), vec![]);
    assert_eq!(store.snapshot_since(5, 100).collect(), vec![]);
}

#[test]
fn snapshot_is_in_non_decreasing_timestamp_order() {
    let mut store: SampleStore<8> = SampleStore::new();
    for t in [1u64, 2, 2, 3, 5, 8, 8, 13] {
        store.append(sample(t, t as i32));
    }
    let got = store.snapshot_since(10, 8).collect();
    assert_eq!(
        got,
        vec![sample(2, 2), sample(2, 2), sample(3, 3), sample(5, 5), sample(8, 8), sample(8, 8)]
    );
    for pair in got.windows(2) {
        assert!(pair[0].timestamp <= pair[1].timestamp);
    }
}

#[test]
fn snapshot_keeps_write_order_when_timestamps_go_back() {
    let mut store: SampleStore<4> = SampleStore::new();
    store.append(sample(5, 1));
    store.append(sample(3, 2));
    store.append(sample(4, 3));
    let got = store.snapshot_since(5, 5).collect();
    assert_eq!(got, vec![sample(5, 1), sample(3, 2), sample(4, 3)]);
}

#[test]
fn snapshot_is_repeatable_and_leaves_store_alone() {
    let mut store: SampleStore<3> = SampleStore::new();
    for t in [10u64, 20, 30, 40] {
        store.append(sample(t, t as i32));
    }
    let first = store.snapshot_since(35, 20).collect();
    let second = store.snapshot_since(35, 20).collect();
    assert_eq!(first, second);
    assert_eq!(first, vec![sample(20, 20), sample(30, 30)]);
    assert_eq!(store.len(), 3);
    assert_eq!(contents(&store), vec![sample(20, 20), sample(30, 30), sample(40, 40)]);
}

#[test]
fn snapshot_after_wraparound_is_oldest_first() {
    let mut store: SampleStore<4> = SampleStore::new();
    for t in 1..=10u64 {
        store.append(sample(t, t as i32));
    }
    let got = store.snapshot_since(9, 1).collect();
    assert_eq!(got, vec![sample(8, 8), sample(9, 9)]);
}

#[test]
fn cursor_yields_one_by_one_then_none() {
    let mut store: SampleStore<4> = SampleStore::new();
    store.append(sample(1, 10));
    store.append(sample(50, 20));
    store.append(sample(2, 30));
    let mut cursor = store.snapshot_since(2, 2);
    assert_eq!(cursor.next(), Some(sample(1, 10)));
    assert_eq!(cursor.next(), Some(sample(2, 30)));
    assert_eq!(cursor.next(), None);
    assert_eq!(cursor.next(), None);
}

#[test]
fn cursor_collect_after_next_gives_the_rest() {
    let mut store: SampleStore<4> = SampleStore::new();
    for t in [1u64, 2, 3] {
        store.append(sample(t, 0));
    }
    let mut cursor = store.snapshot_since(3, 3);
    assert_eq!(cursor.next(), Some(sample(1, 0)));
    assert_eq!(cursor.collect(), vec![sample(2, 0), sample(3, 0)]);
}

#[test]
fn sample_is_within_matches_bounds() {
    let s = sample(100, 0);
    assert!(s.is_within(100, 0));
    assert!(s.is_within(150, 50));
    assert!(!s.is_within(151, 50));
    assert!(!s.is_within(99, 1000));
    assert!(s.is_within(u64::MAX, u64::MAX));
}
