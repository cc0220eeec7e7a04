//! The writer's step: one line of the tool's output becomes one sample in
//! the store, or the reason why ingestion has to stop.

use vstd::prelude::*;
use crate::clock::now_seconds;
use crate::line::{LineError, LineFormat, line_outcome};
use crate::sample::{Reading, ReadingView};
use crate::store::{RetentionStore, StoreModel};

verus! {

/// Why ingestion stops. Every one of these ends the writer: a collector
/// that goes on without new data serves nobody.
#[derive(Clone, Copy, Debug, PartialEq, Eq, Structural)]
pub enum IngestError {
    /// The tool's output has ended: an empty read.
    SourceClosed,
    /// The line could not be read.
    Line(LineError),
    /// Every sequence number has been given out.
    Exhausted,
}

/// What accepting a reading does to the store: it is appended unless the
/// numbers have run out.
pub open spec fn accept_outcome(store: StoreModel, timestamp: int, reading: ReadingView) -> (
    Result<nat, IngestError>,
    StoreModel,
) {
    if store.next_sequence >= u64::MAX {
        (Err(IngestError::Exhausted), store)
    } else {
        (Ok(store.next_sequence), store.append(timestamp, reading))
    }
}

/// What ingesting a line does to the store, given what reading the line
/// yielded and the second at which it is stamped: an empty line means that
/// the source is closed, a line that cannot be read is refused, and a
/// reading is accepted.
pub open spec fn ingest_outcome(
    store: StoreModel,
    line: Seq<char>,
    parsed: Result<ReadingView, LineError>,
    timestamp: int,
) -> (Result<nat, IngestError>, StoreModel) {
    if line.len() == 0 {
        (Err(IngestError::SourceClosed), store)
    } else {
        match parsed {
            Err(error) => (Err(IngestError::Line(error)), store),
            Ok(reading) => accept_outcome(store, timestamp, reading),
        }
    }
}

/// The value of an ingest result.
pub open spec fn receipt_view(receipt: Result<u64, IngestError>) -> Result<nat, IngestError> {
    match receipt {
        Ok(sequence) => Ok(sequence as nat),
        Err(error) => Err(error),
    }
}

/// Appends `reading`, stamped `timestamp`, unless the store has given out
/// its last number. Returns the number given.
pub fn accept(store: &mut RetentionStore, timestamp: i64, reading: Reading) -> (receipt: Result<
    u64,
    IngestError,
>)
    ensures
        (receipt_view(receipt), final(store)@) == accept_outcome(
            old(store)@,
            timestamp as int,
            reading@,
        ),
{
    if store.next_sequence() == u64::MAX {
        Err(IngestError::Exhausted)
    } else {
        Ok(store.append(timestamp, reading))
    }
}

/// Reads `line` and appends the reading with the given timestamp.
pub fn ingest_line_at(
    format: &LineFormat,
    store: &mut RetentionStore,
    line: &str,
    timestamp: i64,
) -> (receipt: Result<u64, IngestError>)
    ensures
        (receipt_view(receipt), final(store)@) == ingest_outcome(
            old(store)@,
            line@,
            line_outcome(format.found(line@)),
            timestamp as int,
        ),
{
    if line.is_empty() {
        return Err(IngestError::SourceClosed);
    }
    match format.parse(line) {
        Err(error) => Err(IngestError::Line(error)),
        Ok(reading) => accept(store, timestamp, reading),
    }
}

/// Reads `line` and appends the reading, stamped with the second that the
/// wall clock shows once the line has been read. Whatever the clock shows,
/// the store changes as [`ingest_outcome`] says for that second.
pub fn ingest_line(format: &LineFormat, store: &mut RetentionStore, line: &str) -> (receipt:
    Result<u64, IngestError>)
    ensures
        exists|timestamp: i64|
            (receipt_view(receipt), final(store)@) == #[trigger] ingest_outcome(
                old(store)@,
                line@,
                line_outcome(format.found(line@)),
                timestamp as int,
            ),
{
    if line.is_empty() {
        assert((Err::<nat, IngestError>(IngestError::SourceClosed), store@) == ingest_outcome(
            store@,
            line@,
            line_outcome(format.found(line@)),
            0i64 as int,
        ));
        return Err(IngestError::SourceClosed);
    }
    match format.parse(line) {
        Err(error) => {
            assert((Err::<nat, IngestError>(IngestError::Line(error)), store@) == ingest_outcome(
                store@,
                line@,
                line_outcome(format.found(line@)),
                0i64 as int,
            ));
            Err(IngestError::Line(error))
        },
        Ok(reading) => {
            let timestamp = now_seconds();
            let ghost before = store@;
            let receipt = accept(store, timestamp, reading);
            assert((receipt_view(receipt), store@) == ingest_outcome(
                before,
                line@,
                line_outcome(format.found(line@)),
                timestamp as int,
            ));
            receipt
        },
    }
}

} // verus!
