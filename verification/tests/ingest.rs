use iotop_relay::ingest::{accept, ingest_line, ingest_line_at, IngestError};
use iotop_relay::line::{LineError, LineFormat};
use iotop_relay::sample::Reading;
use iotop_relay::store::RetentionStore;
use std::time::{SystemTime, UNIX_EPOCH};

const LINE: &str = " 77 be/4 postgres    4.00 K/s   8.25 K/s  0.00 %  3.10 % postgres: writer\n";

fn expected() -> Reading {
    Reading {
        thread_id: 77,
        priority: "be/4".to_string(),
        user: "postgres".to_string(),
        disk_read_rate: "4.00".to_string(),
        disk_write_rate: "8.25".to_string(),
        swap_in_percent: "0.00".to_string(),
        io_percent: "3.10".to_string(),
        command: "postgres: writer".to_string(),
    }
}

fn wall_clock() -> i64 {
    SystemTime::now().duration_since(UNIX_EPOCH).unwrap().as_secs() as i64
}

#[test]
fn accept_appends() {
    let mut store = RetentionStore::new(10);
    assert_eq!(accept(&mut store, 100, expected()), Ok(0));
    assert_eq!(accept(&mut store, 111, expected()), Ok(1));
    let kept = store.snapshot();
    assert_eq!(kept.len(), 1);
    assert_eq!(kept[0].sequence, 1);
    assert_eq!(kept[0].timestamp, 111);
    assert_eq!(kept[0].reading, expected());
}

#[test]
fn a_line_becomes_a_sample() {
    let format = LineFormat::new().unwrap();
    let mut store = RetentionStore::new(900);
    assert_eq!(ingest_line_at(&format, &mut store, LINE, 1_700_000_000), Ok(0));
    assert_eq!(ingest_line_at(&format, &mut store, LINE, 1_700_000_001), Ok(1));
    let kept = store.snapshot();
    assert_eq!(kept.len(), 2);
    assert_eq!(kept[0].sequence, 0);
    assert_eq!(kept[0].timestamp, 1_700_000_000);
    assert_eq!(kept[0].reading, expected());
    assert_eq!(kept[1].sequence, 1);
    assert_eq!(kept[1].timestamp, 1_700_000_001);
}

#[test]
fn an_empty_read_closes_the_source() {
    let format = LineFormat::new().unwrap();
    let mut store = RetentionStore::new(900);
    ingest_line_at(&format, &mut store, LINE, 5).unwrap();
    assert_eq!(ingest_line_at(&format, &mut store, "", 6), Err(IngestError::SourceClosed));
    assert_eq!(ingest_line(&format, &mut store, ""), Err(IngestError::SourceClosed));
    assert_eq!(store.len(), 1);
    assert_eq!(store.next_sequence(), 1);
}

#[test]
fn a_bad_line_stops_ingestion_and_leaves_the_store() {
    let format = LineFormat::new().unwrap();
    let mut store = RetentionStore::new(1);
    ingest_line_at(&format, &mut store, LINE, 5).unwrap();
    assert_eq!(
        ingest_line_at(&format, &mut store, "no such layout\n", 500),
        Err(IngestError::Line(LineError::Mismatch))
    );
    assert_eq!(
        ingest_line_at(&format, &mut store, "\n", 500),
        Err(IngestError::Line(LineError::Mismatch))
    );
    assert_eq!(
        ingest_line_at(
            &format,
            &mut store,
            "99999999999 be/4 root 0.00 K/s 0.00 K/s 0.00 % 0.00 % init\n",
            500
        ),
        Err(IngestError::Line(LineError::ThreadId))
    );
    assert_eq!(
        ingest_line(&format, &mut store, "1 be/4 root 0.0.0 K/s 0.00 K/s 0.00 % 0.00 % init\n"),
        Err(IngestError::Line(LineError::Measurement))
    );
    assert_eq!(store.len(), 1);
    assert_eq!(store.next_sequence(), 1);
    assert_eq!(store.snapshot()[0].timestamp, 5);
}

#[test]
fn ingestion_stamps_with_the_wall_clock() {
    let format = LineFormat::new().unwrap();
    let mut store = RetentionStore::new(900);
    let before = wall_clock();
    assert_eq!(ingest_line(&format, &mut store, LINE), Ok(0));
    assert_eq!(ingest_line(&format, &mut store, LINE), Ok(1));
    let after = wall_clock();
    let kept = store.snapshot();
    assert_eq!(kept.len(), 2);
    for sample in kept.iter() {
        assert!(before <= sample.timestamp && sample.timestamp <= after);
        assert_eq!(sample.reading, expected());
    }
    assert!(kept[0].timestamp <= kept[1].timestamp);
}
