//! The records that flow through the store.

use vstd::prelude::*;

verus! {

/// Mathematical value of a [`Reading`].
pub struct ReadingView {
    pub thread_id: nat,
    pub priority: Seq<char>,
    pub user: Seq<char>,
    pub disk_read_rate: Seq<char>,
    pub disk_write_rate: Seq<char>,
    pub swap_in_percent: Seq<char>,
    pub io_percent: Seq<char>,
    pub command: Seq<char>,
}

/// One report of the sampling tool about one thread.
///
/// The four measurements are kept as the decimal text that the tool printed,
/// so that nothing is lost before a consumer turns them into numbers.
#[derive(Debug, PartialEq, Eq)]
pub struct Reading {
    pub thread_id: u32,
    pub priority: String,
    pub user: String,
    pub disk_read_rate: String,
    pub disk_write_rate: String,
    pub swap_in_percent: String,
    pub io_percent: String,
    pub command: String,
}

impl View for Reading {
    type V = ReadingView;

    open spec fn view(&self) -> ReadingView {
        ReadingView {
            thread_id: self.thread_id as nat,
            priority: self.priority@,
            user: self.user@,
            disk_read_rate: self.disk_read_rate@,
            disk_write_rate: self.disk_write_rate@,
            swap_in_percent: self.swap_in_percent@,
            io_percent: self.io_percent@,
            command: self.command@,
        }
    }
}

impl Clone for Reading {
    fn clone(&self) -> (copy: Reading)
        ensures
            copy == *self,
    {
        Reading {
            thread_id: self.thread_id,
            priority: self.priority.clone(),
            user: self.user.clone(),
            disk_read_rate: self.disk_read_rate.clone(),
            disk_write_rate: self.disk_write_rate.clone(),
            swap_in_percent: self.swap_in_percent.clone(),
            io_percent: self.io_percent.clone(),
            command: self.command.clone(),
        }
    }
}

/// Mathematical value of a [`Sample`].
pub struct SampleView {
    pub sequence: nat,
    pub timestamp: int,
    pub reading: ReadingView,
}

/// A reading as the store keeps it: numbered and stamped at ingest.
///
/// `sequence` is the only key by which samples are ordered and told apart;
/// `timestamp` (seconds) serves eviction alone.
#[derive(Debug, PartialEq, Eq)]
pub struct Sample {
    pub sequence: u64,
    pub timestamp: i64,
    pub reading: Reading,
}

impl View for Sample {
    type V = SampleView;

    open spec fn view(&self) -> SampleView {
        SampleView {
            sequence: self.sequence as nat,
            timestamp: self.timestamp as int,
            reading: self.reading@,
        }
    }
}

impl Clone for Sample {
    fn clone(&self) -> (copy: Sample)
        ensures
            copy == *self,
    {
        Sample {
            sequence: self.sequence,
            timestamp: self.timestamp,
            reading: self.reading.clone(),
        }
    }
}

/// The values of a run of samples, in the same order.
pub open spec fn sample_views(samples: Seq<Sample>) -> Seq<SampleView> {
    samples.map_values(|s: Sample| s@)
}

} // verus!
