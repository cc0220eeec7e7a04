use iotop_relay::sample::{Reading, Sample};
use iotop_relay::store::{is_expired, RetentionStore};

fn reading(tag: u32) -> Reading {
    Reading {
        thread_id: tag,
        priority: "be/4".to_string(),
        user: "root".to_string(),
        disk_read_rate: "0.00".to_string(),
        disk_write_rate: "12.50".to_string(),
        swap_in_percent: "0.00".to_string(),
        io_percent: "1.25".to_string(),
        command: format!("worker {}", tag),
    }
}

fn sequences(samples: &[Sample]) -> Vec<u64> {
    samples.iter().map(|s| s.sequence).collect()
}

fn timestamps(samples: &[Sample]) -> Vec<i64> {
    samples.iter().map(|s| s.timestamp).collect()
}

#[test]
fn new_store_is_empty() {
    let store = RetentionStore::new(10);
    assert_eq!(store.len(), 0);
    assert_eq!(store.next_sequence(), 0);
    assert_eq!(store.window(), 10);
    assert!(store.snapshot().is_empty());
    assert!(store.entries_after(None).is_empty());
    assert!(!store.has_entries_after(None));
}

#[test]
fn append_numbers_from_zero_and_keeps_the_reading() {
    let mut store = RetentionStore::new(900);
    assert_eq!(store.append(1_700_000_000, reading(7)), 0);
    assert_eq!(store.append(1_700_000_000, reading(8)), 1);
    assert_eq!(store.append(1_700_000_001, reading(9)), 2);
    assert_eq!(store.next_sequence(), 3);
    let kept = store.snapshot();
    assert_eq!(
        kept,
        vec![
            Sample { sequence: 0, timestamp: 1_700_000_000, reading: reading(7) },
            Sample { sequence: 1, timestamp: 1_700_000_000, reading: reading(8) },
            Sample { sequence: 2, timestamp: 1_700_000_001, reading: reading(9) },
        ]
    );
}

#[test]
fn window_of_ten_seconds_keeps_eleven_samples() {
    let mut store = RetentionStore::new(10);
    for t in 0..=20u32 {
        let sequence = store.append(t as i64, reading(t));
        assert_eq!(sequence, t as u64);
    }
    let kept = store.snapshot();
    assert_eq!(kept.len(), 11);
    assert_eq!(store.len(), 11);
    for (i, sample) in kept.iter().enumerate() {
        assert_eq!(sample.sequence, 10 + i as u64);
        assert_eq!(sample.timestamp, 10 + i as i64);
        assert_eq!(sample.reading, reading(10 + i as u32));
    }
}

#[test]
fn a_sample_on_the_edge_of_the_window_stays() {
    let mut store = RetentionStore::new(10);
    store.append(100, reading(0));
    store.append(110, reading(1));
    assert_eq!(timestamps(&store.snapshot()), vec![100, 110]);
    store.append(111, reading(2));
    assert_eq!(timestamps(&store.snapshot()), vec![110, 111]);
    assert_eq!(sequences(&store.snapshot()), vec![1, 2]);
}

#[test]
fn eviction_counts_back_from_the_appended_timestamp() {
    let mut store = RetentionStore::new(5);
    store.append(10, reading(0));
    store.append(12, reading(1));
    store.append(14, reading(2));
    store.append(100, reading(3));
    assert_eq!(sequences(&store.snapshot()), vec![3]);
    assert_eq!(store.next_sequence(), 4);
}

#[test]
fn eviction_takes_from_the_old_end_only() {
    let mut store = RetentionStore::new(10);
    store.append(100, reading(0));
    store.append(50, reading(1));
    store.append(105, reading(2));
    assert_eq!(timestamps(&store.snapshot()), vec![100, 50, 105]);
    store.append(111, reading(3));
    assert_eq!(timestamps(&store.snapshot()), vec![105, 111]);
}

#[test]
fn a_window_of_zero_keeps_the_latest_second() {
    let mut store = RetentionStore::new(0);
    store.append(5, reading(0));
    store.append(5, reading(1));
    assert_eq!(sequences(&store.snapshot()), vec![0, 1]);
    store.append(6, reading(2));
    assert_eq!(sequences(&store.snapshot()), vec![2]);
}

#[test]
fn a_negative_window_retains_nothing() {
    let mut store = RetentionStore::new(-1);
    assert_eq!(store.append(5, reading(0)), 0);
    assert_eq!(store.len(), 0);
    assert_eq!(store.append(6, reading(1)), 1);
    assert!(store.snapshot().is_empty());
    assert_eq!(store.next_sequence(), 2);
}

#[test]
fn extreme_timestamps_do_not_overflow() {
    let mut store = RetentionStore::new(i64::MAX);
    store.append(i64::MIN, reading(0));
    store.append(-2, reading(1));
    assert_eq!(store.len(), 2);
    store.append(-1, reading(2));
    assert_eq!(timestamps(&store.snapshot()), vec![i64::MIN, -2, -1]);
    store.append(0, reading(3));
    assert_eq!(timestamps(&store.snapshot()), vec![-2, -1, 0]);
    let mut other = RetentionStore::new(i64::MIN);
    other.append(i64::MAX, reading(0));
    assert_eq!(other.len(), 0);
}

#[test]
fn is_expired_compares_without_wrapping() {
    assert!(is_expired(9, 20, 10));
    assert!(!is_expired(10, 20, 10));
    assert!(!is_expired(11, 20, 10));
    assert!(!is_expired(i64::MIN, i64::MIN, 1));
    assert!(is_expired(i64::MAX, i64::MAX, -1));
    assert!(is_expired(i64::MIN, i64::MAX, i64::MAX));
    assert!(!is_expired(0, i64::MAX, i64::MAX));
    assert!(is_expired(i64::MAX, i64::MAX, i64::MIN));
    assert!(!is_expired(0, i64::MIN, i64::MAX));
}

#[test]
fn entries_after_returns_what_lies_beyond_the_cursor() {
    let mut store = RetentionStore::new(100);
    for t in 0..5u32 {
        store.append(t as i64, reading(t));
    }
    assert_eq!(sequences(&store.entries_after(None)), vec![0, 1, 2, 3, 4]);
    assert_eq!(sequences(&store.entries_after(Some(0))), vec![1, 2, 3, 4]);
    assert_eq!(sequences(&store.entries_after(Some(2))), vec![3, 4]);
    assert_eq!(sequences(&store.entries_after(Some(3))), vec![4]);
    assert!(store.entries_after(Some(4)).is_empty());
    assert!(store.entries_after(Some(5)).is_empty());
    assert!(store.entries_after(Some(u64::MAX)).is_empty());
    assert_eq!(
        store.entries_after(Some(3)),
        vec![Sample { sequence: 4, timestamp: 4, reading: reading(4) }]
    );
}

#[test]
fn entries_after_skips_what_was_evicted() {
    let mut store = RetentionStore::new(2);
    for t in 0..10u32 {
        store.append(t as i64, reading(t));
    }
    assert_eq!(sequences(&store.snapshot()), vec![7, 8, 9]);
    assert_eq!(sequences(&store.entries_after(Some(3))), vec![7, 8, 9]);
    assert_eq!(sequences(&store.entries_after(Some(6))), vec![7, 8, 9]);
    assert_eq!(sequences(&store.entries_after(Some(7))), vec![8, 9]);
    assert_eq!(sequences(&store.entries_after(None)), vec![7, 8, 9]);
}

#[test]
fn has_entries_after_agrees_with_entries_after() {
    let mut store = RetentionStore::new(2);
    for t in 0..10u32 {
        store.append(t as i64, reading(t));
    }
    assert!(store.has_entries_after(None));
    for cursor in 0..12u64 {
        assert_eq!(
            store.has_entries_after(Some(cursor)),
            !store.entries_after(Some(cursor)).is_empty()
        );
    }
    assert!(store.has_entries_after(Some(8)));
    assert!(!store.has_entries_after(Some(9)));
}

#[test]
fn snapshot_is_a_copy() {
    let mut store = RetentionStore::new(100);
    store.append(1, reading(1));
    let before = store.snapshot();
    store.append(2, reading(2));
    assert_eq!(before.len(), 1);
    assert_eq!(store.snapshot().len(), 2);
}

#[test]
fn no_retained_sample_is_older_than_the_window() {
    let mut store = RetentionStore::new(7);
    let mut t: i64 = 1000;
    for step in 0..500u32 {
        t += (step % 4) as i64;
        store.append(t, reading(step));
        for sample in store.snapshot() {
            assert!(sample.timestamp >= t - 7);
        }
    }
}

#[test]
fn retained_count_stays_bounded() {
    let mut store = RetentionStore::new(10);
    for t in 0..10_000u32 {
        store.append(t as i64, reading(t));
        assert!(store.len() <= 11);
    }
    assert_eq!(store.len(), 11);
    assert_eq!(store.next_sequence(), 10_000);
    let mut busy = RetentionStore::new(10);
    for n in 0..9_000u32 {
        busy.append((n / 3) as i64, reading(n));
        assert!(busy.len() <= 33);
    }
    assert_eq!(busy.len(), 33);
}

#[test]
fn retained_numbers_are_consecutive() {
    let mut store = RetentionStore::new(3);
    let stamps = [5i64, 5, 6, 9, 9, 9, 10, 14, 14, 20];
    for (n, t) in stamps.iter().enumerate() {
        store.append(*t, reading(n as u32));
        let kept = sequences(&store.snapshot());
        let first = store.next_sequence() - kept.len() as u64;
        let expected: Vec<u64> = (first..store.next_sequence()).collect();
        assert_eq!(kept, expected);
    }
}

#[test]
fn late_join_finds_everything_before_any_eviction() {
    let mut store = RetentionStore::new(900);
    for n in 0..50u32 {
        store.append(1_000 + n as i64, reading(n));
    }
    let backlog = store.snapshot();
    assert_eq!(backlog.len(), 50);
    for (n, sample) in backlog.iter().enumerate() {
        assert_eq!(sample.sequence, n as u64);
        assert_eq!(sample.timestamp, 1_000 + n as i64);
        assert_eq!(sample.reading, reading(n as u32));
    }
}

#[test]
fn reading_and_sample_clone_equal() {
    let sample = Sample { sequence: 3, timestamp: -4, reading: reading(5) };
    assert_eq!(sample.clone(), sample);
    assert_eq!(sample.reading.clone(), reading(5));
}
