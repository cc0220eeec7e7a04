//! What a store holds after a run of appends, and what follows from the
//! eviction rule.

use vstd::prelude::*;
use crate::sample::{ReadingView, SampleView};
use crate::store::{StoreModel, evict_front, lemma_append_well_formed, lemma_evict_front_is_tail};

verus! {

/// One thing the writer appends: a reading and the second at which it came.
pub struct Arrival {
    pub timestamp: int,
    pub reading: ReadingView,
}

/// The arrivals as samples, numbered from zero in the order of their coming.
pub open spec fn numbered(arrivals: Seq<Arrival>) -> Seq<SampleView> {
    Seq::new(
        arrivals.len(),
        |i: int|
            SampleView {
                sequence: i as nat,
                timestamp: arrivals[i].timestamp,
                reading: arrivals[i].reading,
            },
    )
}

/// No sample is stamped earlier than one before it.
pub open spec fn time_ordered(entries: Seq<SampleView>) -> bool {
    forall|i: int, j: int|
        0 <= i <= j < entries.len() ==> (#[trigger] entries[i]).timestamp <= (
        #[trigger] entries[j]).timestamp
}

/// No arrival comes at an earlier second than one before it.
pub open spec fn arrive_in_time_order(arrivals: Seq<Arrival>) -> bool {
    forall|i: int, j: int|
        0 <= i <= j < arrivals.len() ==> (#[trigger] arrivals[i]).timestamp <= (
        #[trigger] arrivals[j]).timestamp
}

/// Among arrivals in time order: no more than `per` of them share a second.
pub open spec fn at_most_per_second(arrivals: Seq<Arrival>, per: nat) -> bool {
    forall|i: int|
        0 <= i && i + per < arrivals.len() ==> (#[trigger] arrivals[i]).timestamp < arrivals[i
            + per].timestamp
}

impl StoreModel {
    /// The store after the writer has appended `arrivals`, one after the other.
    pub open spec fn after(self, arrivals: Seq<Arrival>) -> StoreModel
        decreases arrivals.len(),
    {
        if arrivals.len() == 0 {
            self
        } else {
            let latest = arrivals.last();
            self.after(arrivals.drop_last()).append(latest.timestamp, latest.reading)
        }
    }

    /// How many samples the store has dropped.
    pub open spec fn evicted(self) -> int {
        self.next_sequence - self.entries.len()
    }
}

/// A run of appends keeps the numbering consecutive and gives out one number
/// per arrival.
pub proof fn lemma_after_well_formed(store: StoreModel, arrivals: Seq<Arrival>)
    requires
        store.well_formed(),
    ensures
        store.after(arrivals).well_formed(),
        store.after(arrivals).next_sequence == store.next_sequence + arrivals.len(),
        store.after(arrivals).window == store.window,
    decreases arrivals.len(),
{
    if arrivals.len() > 0 {
        let latest = arrivals.last();
        lemma_after_well_formed(store, arrivals.drop_last());
        lemma_append_well_formed(
            store.after(arrivals.drop_last()),
            latest.timestamp,
            latest.reading,
        );
    }
}

/// What a store has dropped stays dropped: an append never lowers the
/// number of the oldest sample that can still be retained.
pub proof fn lemma_dropped_stay_dropped(store: StoreModel, timestamp: int, reading: ReadingView)
    ensures
        store.append(timestamp, reading).evicted() >= store.evicted(),
{
    let sample = SampleView { sequence: store.next_sequence, timestamp, reading };
    lemma_evict_front_is_tail(store.entries.push(sample), timestamp - store.window);
}

/// A store that started empty retains the most recent of what was appended,
/// unchanged and in the order of appending: sample number `k` is the
/// arrival number `k`, and what is missing is missing from the old end.
pub proof fn lemma_retains_latest_arrivals(window: int, arrivals: Seq<Arrival>)
    ensures
        ({
            let store = StoreModel::empty(window).after(arrivals);
            &&& store.well_formed()
            &&& store.next_sequence == arrivals.len()
            &&& store.entries.len() <= arrivals.len()
            &&& store.entries == numbered(arrivals).skip(arrivals.len() - store.entries.len())
        }),
    decreases arrivals.len(),
{
    let start = StoreModel::empty(window);
    lemma_after_well_formed(start, arrivals);
    let store = start.after(arrivals);
    if arrivals.len() == 0 {
        assert(store.entries =~= numbered(arrivals).skip(0));
    } else {
        let earlier = arrivals.drop_last();
        let latest = arrivals.last();
        let before = start.after(earlier);
        lemma_retains_latest_arrivals(window, earlier);
        let sample = SampleView {
            sequence: before.next_sequence,
            timestamp: latest.timestamp,
            reading: latest.reading,
        };
        let grown = before.entries.push(sample);
        assert(grown =~= numbered(arrivals).skip(arrivals.len() - grown.len())) by {
            assert forall|i: int| 0 <= i < grown.len() implies grown[i] == numbered(arrivals).skip(
                arrivals.len() - grown.len(),
            )[i] by {
                if i < before.entries.len() {
                    assert(before.entries[i] == numbered(earlier)[earlier.len()
                        - before.entries.len() + i]);
                    assert(earlier[earlier.len() - before.entries.len() + i]
                        == arrivals[earlier.len() - before.entries.len() + i]);
                }
            }
        }
        lemma_evict_front_is_tail(grown, latest.timestamp - window);
        assert(store.entries =~= numbered(arrivals).skip(arrivals.len() - store.entries.len()));
    }
}

/// While nothing has been dropped, the store holds every arrival, each
/// under its own number and in the order of coming.
pub proof fn lemma_complete_before_eviction(window: int, arrivals: Seq<Arrival>)
    requires
        StoreModel::empty(window).after(arrivals).evicted() == 0,
    ensures
        StoreModel::empty(window).after(arrivals).entries == numbered(arrivals),
{
    lemma_retains_latest_arrivals(window, arrivals);
    assert(numbered(arrivals).skip(0) =~= numbered(arrivals));
}

/// Eviction stops at a sample that is not older than the threshold.
pub proof fn lemma_evict_front_stops_at_fresh(entries: Seq<SampleView>, threshold: int)
    ensures
        evict_front(entries, threshold).len() > 0 ==> evict_front(entries, threshold)[0].timestamp
            >= threshold,
    decreases entries.len(),
{
    if entries.len() > 0 && entries[0].timestamp < threshold {
        lemma_evict_front_stops_at_fresh(entries.drop_first(), threshold);
    }
}

/// Where the clock does not run backwards, an append leaves no sample that
/// is older than the window, counted back from the timestamp just appended;
/// and the retained samples stay in time order.
pub proof fn lemma_append_drops_expired(store: StoreModel, timestamp: int, reading: ReadingView)
    requires
        time_ordered(store.entries),
        store.entries.len() > 0 ==> store.entries.last().timestamp <= timestamp,
    ensures
        time_ordered(store.append(timestamp, reading).entries),
        forall|i: int|
            0 <= i < store.append(timestamp, reading).entries.len() ==> (
            #[trigger] store.append(timestamp, reading).entries[i]).timestamp >= timestamp
                - store.window,
{
    let sample = SampleView { sequence: store.next_sequence, timestamp, reading };
    let grown = store.entries.push(sample);
    let threshold = timestamp - store.window;
    let kept = evict_front(grown, threshold);
    let dropped = grown.len() - kept.len();
    lemma_evict_front_is_tail(grown, threshold);
    lemma_evict_front_stops_at_fresh(grown, threshold);
    assert forall|i: int, j: int| 0 <= i <= j < grown.len() implies (#[trigger] grown[i]).timestamp
        <= (#[trigger] grown[j]).timestamp by {
        if j < store.entries.len() {
            assert(grown[i] == store.entries[i]);
            assert(grown[j] == store.entries[j]);
        } else if i < store.entries.len() {
            assert(grown[i] == store.entries[i]);
            assert(store.entries[i].timestamp <= store.entries.last().timestamp);
        }
    }
    assert forall|i: int, j: int| 0 <= i <= j < kept.len() implies (#[trigger] kept[i]).timestamp
        <= (#[trigger] kept[j]).timestamp by {
        assert(kept[i] == grown[i + dropped]);
        assert(kept[j] == grown[j + dropped]);
    }
    assert forall|i: int| 0 <= i < kept.len() implies (#[trigger] kept[i]).timestamp
        >= threshold by {
        assert(kept[0].timestamp <= kept[i].timestamp);
    }
}

/// Among arrivals of which no more than `per` share a second, the one that
/// comes `steps * per` places after another comes at least `steps` seconds
/// later.
pub proof fn lemma_seconds_pass(arrivals: Seq<Arrival>, per: nat, from: int, steps: nat)
    requires
        at_most_per_second(arrivals, per),
        0 <= from,
        from + steps * per < arrivals.len(),
    ensures
        arrivals[from + steps * per].timestamp >= arrivals[from].timestamp + steps,
    decreases steps,
{
    if steps > 0 {
        let fewer = (steps - 1) as nat;
        assert(steps * per == fewer * per + per) by (nonlinear_arith)
            requires
                fewer == steps - 1,
        ;
        assert(fewer * per >= 0) by (nonlinear_arith);
        lemma_seconds_pass(arrivals, per, from, fewer);
        let middle = from + fewer * per;
        assert(arrivals[middle].timestamp < arrivals[middle + per].timestamp);
    } else {
        assert(steps * per == 0) by (nonlinear_arith)
            requires
                steps == 0,
        ;
    }
}

/// After a run of appends at seconds that do not go backwards, the retained
/// samples are in time order and none of them is older than the window,
/// counted back from the latest arrival.
pub proof fn lemma_run_drops_expired(window: int, arrivals: Seq<Arrival>)
    requires
        arrivals.len() > 0,
        arrive_in_time_order(arrivals),
    ensures
        ({
            let store = StoreModel::empty(window).after(arrivals);
            &&& time_ordered(store.entries)
            &&& forall|i: int|
                0 <= i < store.entries.len() ==> (#[trigger] store.entries[i]).timestamp
                    >= arrivals.last().timestamp - window
        }),
{
    let start = StoreModel::empty(window);
    let earlier = arrivals.drop_last();
    let latest = arrivals.last();
    let before = start.after(earlier);
    lemma_retains_latest_arrivals(window, earlier);
    lemma_after_well_formed(start, earlier);
    let gone = earlier.len() - before.entries.len();
    assert forall|i: int, j: int| 0 <= i <= j < before.entries.len() implies (
    #[trigger] before.entries[i]).timestamp <= (#[trigger] before.entries[j]).timestamp by {
        assert(before.entries[i].timestamp == earlier[gone + i].timestamp);
        assert(before.entries[j].timestamp == earlier[gone + j].timestamp);
        assert(earlier[gone + i] == arrivals[gone + i]);
        assert(earlier[gone + j] == arrivals[gone + j]);
    }
    if before.entries.len() > 0 {
        let newest = before.entries.len() - 1;
        assert(before.entries[newest].timestamp == earlier[gone + newest].timestamp);
        assert(earlier[gone + newest] == arrivals[gone + newest]);
        assert(arrivals[gone + newest].timestamp <= arrivals[arrivals.len() - 1].timestamp);
    }
    lemma_append_drops_expired(before, latest.timestamp, latest.reading);
    assert(start.after(arrivals) == before.append(latest.timestamp, latest.reading));
}

/// However many samples are appended, the store never retains more than a
/// window's worth: where the clock does not run backwards and no more than
/// `per` samples come within one second, at most `per * (window + 1)` are
/// retained.
pub proof fn lemma_retained_count_is_bounded(window: int, arrivals: Seq<Arrival>, per: nat)
    requires
        window >= 0,
        arrive_in_time_order(arrivals),
        at_most_per_second(arrivals, per),
    ensures
        StoreModel::empty(window).after(arrivals).entries.len() <= per * (window + 1),
{
    let store = StoreModel::empty(window).after(arrivals);
    let count = store.entries.len() as int;
    let bound = per * (window + 1);
    assert(bound >= 0) by (nonlinear_arith)
        requires
            bound == per * (window + 1),
            window >= 0,
    ;
    lemma_retains_latest_arrivals(window, arrivals);
    if count > bound {
        lemma_run_drops_expired(window, arrivals);
        let oldest = arrivals.len() - count;
        assert(store.entries[0].timestamp >= arrivals.last().timestamp - window);
        assert(store.entries[0].timestamp == arrivals[oldest].timestamp);
        let steps = (window + 1) as nat;
        assert(steps * per == bound) by (nonlinear_arith)
            requires
                steps == window + 1,
                bound == per * (window + 1),
        ;
        lemma_seconds_pass(arrivals, per, oldest, steps);
        assert(arrivals[oldest + steps * per].timestamp <= arrivals[arrivals.len() - 1].timestamp);
    }
}

/// Eviction spares a newest sample that is not older than the threshold.
pub proof fn lemma_evict_front_spares_fresh_newest(entries: Seq<SampleView>, threshold: int)
    requires
        entries.len() > 0,
        entries.last().timestamp >= threshold,
    ensures
        evict_front(entries, threshold).len() > 0,
        evict_front(entries, threshold).last() == entries.last(),
    decreases entries.len(),
{
    if entries[0].timestamp < threshold {
        let rest = entries.drop_first();
        assert(rest.len() > 0);
        assert(rest.last() == entries.last());
        lemma_evict_front_spares_fresh_newest(rest, threshold);
    }
}

/// A store whose window is not negative retains the sample just appended,
/// as its newest.
pub proof fn lemma_append_retains_newest(store: StoreModel, timestamp: int, reading: ReadingView)
    requires
        store.window >= 0,
    ensures
        store.append(timestamp, reading).entries.len() > 0,
        store.append(timestamp, reading).entries.last() == (SampleView {
            sequence: store.next_sequence,
            timestamp,
            reading,
        }),
{
    let sample = SampleView { sequence: store.next_sequence, timestamp, reading };
    lemma_evict_front_spares_fresh_newest(store.entries.push(sample), timestamp - store.window);
}

} // verus!
