//! The retention store: a numbered, time-windowed buffer of samples.

use vstd::prelude::*;
use std::collections::VecDeque;
use crate::sample::{Reading, ReadingView, Sample, SampleView, sample_views};
use crate::seq_facts::lemma_filter_is_tail;

verus! {

/// Drops entries from the oldest end for as long as the oldest one is stamped
/// before `threshold`.
pub open spec fn evict_front(entries: Seq<SampleView>, threshold: int) -> Seq<SampleView>
    decreases entries.len(),
{
    if entries.len() > 0 && entries[0].timestamp < threshold {
        evict_front(entries.drop_first(), threshold)
    } else {
        entries
    }
}

/// Whether a sample lies beyond a cursor. No cursor yet: every sample does.
pub open spec fn is_after(sample: SampleView, cursor: Option<nat>) -> bool {
    match cursor {
        Some(last) => sample.sequence > last,
        None => true,
    }
}

/// Mathematical value of a [`RetentionStore`].
pub struct StoreModel {
    /// Length of the retention window, in seconds.
    pub window: int,
    /// The number that the next appended sample receives.
    pub next_sequence: nat,
    /// The retained samples, oldest first.
    pub entries: Seq<SampleView>,
}

impl StoreModel {
    /// The store at start: nothing retained, numbering from zero.
    pub open spec fn empty(window: int) -> StoreModel {
        StoreModel { window, next_sequence: 0, entries: Seq::empty() }
    }

    /// The retained samples carry consecutive numbers that end just below
    /// `next_sequence`.
    pub open spec fn well_formed(self) -> bool {
        &&& self.entries.len() <= self.next_sequence
        &&& forall|i: int|
            0 <= i < self.entries.len() ==> (#[trigger] self.entries[i]).sequence
                == self.next_sequence - self.entries.len() + i
    }

    /// The store after one append: the reading is numbered, stamped and put at
    /// the end, then whatever at the front is older than the window, counted
    /// back from the new sample's timestamp, is dropped.
    pub open spec fn append(self, timestamp: int, reading: ReadingView) -> StoreModel {
        let sample = SampleView { sequence: self.next_sequence, timestamp, reading };
        StoreModel {
            window: self.window,
            next_sequence: self.next_sequence + 1,
            entries: evict_front(self.entries.push(sample), timestamp - self.window),
        }
    }

    /// The retained samples beyond `cursor`, oldest first.
    pub open spec fn entries_after(self, cursor: Option<nat>) -> Seq<SampleView> {
        self.entries.filter(|s: SampleView| is_after(s, cursor))
    }

    /// In a well-formed store: how many retained samples are not beyond
    /// `cursor`.
    pub open spec fn position_after(self, cursor: Option<nat>) -> int {
        match cursor {
            None => 0,
            Some(last) => {
                if self.entries.len() == 0 || last < self.entries[0].sequence {
                    0
                } else if last - self.entries[0].sequence >= self.entries.len() {
                    self.entries.len() as int
                } else {
                    last - self.entries[0].sequence + 1
                }
            },
        }
    }
}

/// Sequence-numbered, time-windowed buffer of samples.
pub struct RetentionStore {
    window: i64,
    next_sequence: u64,
    entries: VecDeque<Sample>,
}

impl View for RetentionStore {
    type V = StoreModel;

    closed spec fn view(&self) -> StoreModel {
        StoreModel {
            window: self.window as int,
            next_sequence: self.next_sequence as nat,
            entries: sample_views(self.entries@),
        }
    }
}

impl RetentionStore {
    #[verifier::type_invariant]
    spec fn consistent(self) -> bool {
        self@.well_formed()
    }

    /// An empty store that keeps `window` seconds of history.
    pub fn new(window: i64) -> (store: RetentionStore)
        ensures
            store@ == StoreModel::empty(window as int),
    {
        let store = RetentionStore { window, next_sequence: 0, entries: VecDeque::new() };
        assert(store@.entries =~= Seq::empty());
        store
    }

    /// The length of the retention window, in seconds.
    pub fn window(&self) -> (window: i64)
        ensures
            window == self@.window,
            self@.well_formed(),
    {
        proof {
            use_type_invariant(self);
        }
        self.window
    }

    /// The number that the next appended sample will carry, which is also the
    /// count of samples appended so far.
    pub fn next_sequence(&self) -> (next: u64)
        ensures
            next == self@.next_sequence,
            self@.well_formed(),
    {
        proof {
            use_type_invariant(self);
        }
        self.next_sequence
    }

    /// How many samples are retained.
    pub fn len(&self) -> (count: usize)
        ensures
            count == self@.entries.len(),
            self@.well_formed(),
    {
        proof {
            use_type_invariant(self);
        }
        self.entries.len()
    }

    /// Numbers and stamps `reading`, puts it at the end and drops from the
    /// front what has fallen out of the window. Returns the number given.
    pub fn append(&mut self, timestamp: i64, reading: Reading) -> (sequence: u64)
        requires
            old(self)@.next_sequence < u64::MAX,
        ensures
            final(self)@ == old(self)@.append(timestamp as int, reading@),
            sequence == old(self)@.next_sequence,
            final(self)@.well_formed(),
    {
        proof {
            use_type_invariant(&*self);
            lemma_append_well_formed(self@, timestamp as int, reading@);
        }
        let ghost before = self@;
        let ghost target = before.append(timestamp as int, reading@);
        let sequence = self.next_sequence;
        let window = self.window;
        let mut entries: VecDeque<Sample> = VecDeque::new();
        std::mem::swap(&mut entries, &mut self.entries);
        entries.push_back(Sample { sequence, timestamp, reading });
        assert(sample_views(entries@) =~= before.entries.push(
            SampleView {
                sequence: sequence as nat,
                timestamp: timestamp as int,
                reading: reading@,
            },
        ));
        while entries.len() > 0 && is_expired(entries[0].timestamp, timestamp, window)
            invariant
                evict_front(sample_views(entries@), timestamp - window) == target.entries,
            decreases entries.len(),
        {
            let ghost longer = sample_views(entries@);
            entries.pop_front();
            assert(sample_views(entries@) =~= longer.drop_first());
        }
        self.next_sequence = sequence + 1;
        self.entries = entries;
        sequence
    }

    /// A copy of everything retained, oldest first: the backlog for a
    /// subscriber that has just attached.
    pub fn snapshot(&self) -> (copy: Vec<Sample>)
        ensures
            sample_views(copy@) == self@.entries,
            self@.well_formed(),
    {
        proof {
            use_type_invariant(self);
        }
        self.copy_from(0)
    }

    /// Whether a sample beyond `cursor` is retained.
    pub fn has_entries_after(&self, cursor: Option<u64>) -> (found: bool)
        ensures
            found == (self@.entries_after(cursor_value(cursor)).len() > 0),
            self@.well_formed(),
    {
        let start = self.first_after(cursor);
        start < self.entries.len()
    }

    /// Copies of the retained samples whose number is greater than `cursor`,
    /// oldest first. Without a cursor these are all of them.
    pub fn entries_after(&self, cursor: Option<u64>) -> (copy: Vec<Sample>)
        ensures
            sample_views(copy@) == self@.entries_after(cursor_value(cursor)),
            self@.well_formed(),
    {
        let start = self.first_after(cursor);
        self.copy_from(start)
    }

    /// The position of the oldest retained sample beyond `cursor`, or the
    /// number of retained samples where there is none.
    fn first_after(&self, cursor: Option<u64>) -> (start: usize)
        ensures
            start <= self@.entries.len(),
            self@.entries_after(cursor_value(cursor)) == self@.entries.skip(start as int),
            self@.well_formed(),
    {
        proof {
            use_type_invariant(self);
        }
        let count = self.entries.len();
        let start: usize = match cursor {
            None => 0,
            Some(last) => {
                if count == 0 {
                    0
                } else {
                    let oldest = self.entries[0].sequence;
                    assert(self@.entries[0].sequence == oldest);
                    if last < oldest {
                        0
                    } else if last - oldest >= count as u64 {
                        count
                    } else {
                        (last - oldest) as usize + 1
                    }
                }
            },
        };
        proof {
            lemma_entries_after_is_tail(self@, cursor_value(cursor));
        }
        start
    }

    /// Copies of the retained samples from position `start` on.
    fn copy_from(&self, start: usize) -> (copy: Vec<Sample>)
        requires
            start <= self@.entries.len(),
        ensures
            sample_views(copy@) == self@.entries.skip(start as int),
    {
        let count = self.entries.len();
        let mut copy: Vec<Sample> = Vec::new();
        let mut i: usize = start;
        while i < count
            invariant
                start <= i <= count,
                count == self.entries@.len(),
                copy@ == self.entries@.subrange(start as int, i as int),
            decreases count - i,
        {
            copy.push(self.entries[i].clone());
            assert(copy@ =~= self.entries@.subrange(start as int, i + 1));
            i += 1;
        }
        assert(sample_views(copy@) =~= self@.entries.skip(start as int));
        copy
    }
}

/// The cursor as a number of the model.
pub open spec fn cursor_value(cursor: Option<u64>) -> Option<nat> {
    match cursor {
        Some(last) => Some(last as nat),
        None => None,
    }
}

/// Whether a sample stamped `stamped` has fallen out of a window of `window`
/// seconds that ends at `latest`.
pub fn is_expired(stamped: i64, latest: i64, window: i64) -> (expired: bool)
    ensures
        expired == (stamped < latest - window),
{
    (stamped as i128) < (latest as i128) - (window as i128)
}

/// In a well-formed store the samples beyond a cursor are the retained ones
/// from a certain position on: they come in ascending order, without gaps.
pub proof fn lemma_entries_after_is_tail(store: StoreModel, cursor: Option<nat>)
    requires
        store.well_formed(),
    ensures
        0 <= store.position_after(cursor) <= store.entries.len(),
        store.entries_after(cursor) == store.entries.skip(store.position_after(cursor)),
{
    let keep = |s: SampleView| is_after(s, cursor);
    lemma_filter_is_tail(store.entries, keep, store.position_after(cursor));
}

/// What eviction leaves is the tail of what it was given.
pub proof fn lemma_evict_front_is_tail(entries: Seq<SampleView>, threshold: int)
    ensures
        evict_front(entries, threshold).len() <= entries.len(),
        evict_front(entries, threshold) == entries.skip(
            entries.len() - evict_front(entries, threshold).len(),
        ),
    decreases entries.len(),
{
    if entries.len() > 0 && entries[0].timestamp < threshold {
        let rest = entries.drop_first();
        lemma_evict_front_is_tail(rest, threshold);
        let kept = evict_front(rest, threshold);
        assert(rest.skip(rest.len() - kept.len()) =~= entries.skip(entries.len() - kept.len()));
    } else {
        assert(entries.skip(0) =~= entries);
    }
}

/// An append keeps the numbering consecutive.
pub proof fn lemma_append_well_formed(store: StoreModel, timestamp: int, reading: ReadingView)
    requires
        store.well_formed(),
    ensures
        store.append(timestamp, reading).well_formed(),
{
    let sample = SampleView { sequence: store.next_sequence, timestamp, reading };
    let grown = store.entries.push(sample);
    lemma_evict_front_is_tail(grown, timestamp - store.window);
}

} // verus!
