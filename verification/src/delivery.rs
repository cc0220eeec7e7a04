//! What a subscriber receives over the life of its session.

use vstd::prelude::*;
use crate::history::{
    Arrival, lemma_append_retains_newest, lemma_complete_before_eviction,
    lemma_retains_latest_arrivals, numbered,
};
use crate::sample::{ReadingView, SampleView};
use crate::session::{Phase, SessionModel};
use crate::store::{
    StoreModel, is_after, lemma_append_well_formed, lemma_entries_after_is_tail,
};

verus! {

/// The cursor after a batch has been delivered in full.
pub open spec fn advance(cursor: Option<nat>, batch: Seq<SampleView>) -> Option<nat> {
    if batch.len() == 0 {
        cursor
    } else {
        Some(batch.last().sequence)
    }
}

/// Everything that a subscriber receives, in the order of sending, when its
/// session starts from `cursor`, stays connected and finds the store in the
/// states `stores`, one at each time it looks: what lies beyond the cursor is
/// sent, and the cursor moves to the last sample sent.
pub open spec fn follow(cursor: Option<nat>, stores: Seq<StoreModel>) -> Seq<SampleView>
    decreases stores.len(),
{
    if stores.len() == 0 {
        Seq::empty()
    } else {
        let batch = stores[0].entries_after(cursor);
        batch + follow(advance(cursor, batch), stores.drop_first())
    }
}

/// The states in which a subscriber finds a store that started empty, when
/// it looks after `seen[0]` appends, then after `seen[1]`, and so on.
pub open spec fn observed(window: int, arrivals: Seq<Arrival>, seen: Seq<int>) -> Seq<StoreModel> {
    Seq::new(seen.len(), |k: int| StoreModel::empty(window).after(arrivals.take(seen[k])))
}

impl SessionModel {
    /// The session after every sample of `batch` reached the subscriber, in
    /// order.
    pub open spec fn deliver_all(self, batch: Seq<SampleView>) -> SessionModel
        decreases batch.len(),
    {
        if batch.len() == 0 {
            self
        } else {
            self.deliver_all(batch.drop_last()).delivered(batch.last().sequence)
        }
    }
}

impl SessionModel {
    /// What a live session sends when it wakes once for each of `stores`, in
    /// turn, and every sample it sends reaches the subscriber.
    pub open spec fn sent_live(self, stores: Seq<StoreModel>) -> Seq<SampleView>
        decreases stores.len(),
    {
        if stores.len() == 0 {
            Seq::empty()
        } else {
            let batch = self.pending(stores[0]);
            batch + self.deliver_all(batch).sent_live(stores.drop_first())
        }
    }

    /// What a session sends from its greeting on, when it attaches to the
    /// first of `stores`, wakes once for each of the others, and every
    /// sample it sends reaches the subscriber.
    pub open spec fn sent_in_life(stores: Seq<StoreModel>) -> Seq<SampleView> {
        if stores.len() == 0 {
            Seq::empty()
        } else {
            let greeted = SessionModel::start().greeted();
            let backlog = greeted.backlog(stores[0]);
            backlog + greeted.attached().deliver_all(backlog).sent_live(stores.drop_first())
        }
    }
}

/// A subscriber without a cursor is sent everything that is retained.
pub proof fn lemma_backlog_is_everything(store: StoreModel)
    requires
        store.well_formed(),
    ensures
        store.entries_after(None) == store.entries,
{
    lemma_entries_after_is_tail(store, None);
    assert(store.entries.skip(0) =~= store.entries);
}

/// What a wake-up yields lies beyond the cursor and ascends by number.
pub proof fn lemma_batch_ascends(store: StoreModel, cursor: Option<nat>)
    requires
        store.well_formed(),
    ensures
        forall|i: int|
            0 <= i < store.entries_after(cursor).len() ==> is_after(
                #[trigger] store.entries_after(cursor)[i],
                cursor,
            ),
        forall|i: int, j: int|
            0 <= i < j < store.entries_after(cursor).len() ==> (
            #[trigger] store.entries_after(cursor)[i]).sequence < (
            #[trigger] store.entries_after(cursor)[j]).sequence,
        forall|i: int|
            0 <= i < store.entries_after(cursor).len() ==> store.entries.contains(
                #[trigger] store.entries_after(cursor)[i],
            ),
{
    lemma_entries_after_is_tail(store, cursor);
    let from = store.position_after(cursor);
    let batch = store.entries_after(cursor);
    assert forall|i: int| 0 <= i < batch.len() implies is_after(#[trigger] batch[i], cursor)
        && store.entries.contains(batch[i]) by {
        assert(batch[i] == store.entries[from + i]);
    }
    assert forall|i: int, j: int| 0 <= i < j < batch.len() implies (#[trigger] batch[i]).sequence
        < (#[trigger] batch[j]).sequence by {
        assert(batch[i] == store.entries[from + i]);
        assert(batch[j] == store.entries[from + j]);
    }
}

/// Reporting a batch sample by sample moves the cursor to the batch's last
/// sample, and leaves it where it was for an empty batch.
pub proof fn lemma_deliver_all_advances(session: SessionModel, store: StoreModel)
    requires
        session.phase == Phase::Live,
        store.well_formed(),
    ensures
        session.deliver_all(session.pending(store)) == (SessionModel {
            phase: Phase::Live,
            cursor: advance(session.cursor, session.pending(store)),
        }),
{
    let batch = session.pending(store);
    lemma_batch_ascends(store, session.cursor);
    lemma_deliver_prefix(session, batch, batch.len() as int);
    assert(batch.take(batch.len() as int) =~= batch);
}

proof fn lemma_deliver_prefix(session: SessionModel, batch: Seq<SampleView>, count: int)
    requires
        session.phase == Phase::Live,
        0 <= count <= batch.len(),
        forall|i: int| 0 <= i < batch.len() ==> is_after(#[trigger] batch[i], session.cursor),
        forall|i: int, j: int|
            0 <= i < j < batch.len() ==> (#[trigger] batch[i]).sequence < (
            #[trigger] batch[j]).sequence,
    ensures
        session.deliver_all(batch.take(count)) == (SessionModel {
            phase: Phase::Live,
            cursor: advance(session.cursor, batch.take(count)),
        }),
    decreases count,
{
    let prefix = batch.take(count);
    if count > 0 {
        lemma_deliver_prefix(session, batch, count - 1);
        assert(prefix.drop_last() =~= batch.take(count - 1));
        assert(prefix.last() == batch[count - 1]);
        if count > 1 {
            assert(batch.take(count - 1).last() == batch[count - 2]);
        }
    }
}

/// What a live session sends over its wake-ups is what [`follow`] describes
/// from the session's cursor.
pub proof fn lemma_live_session_follows(session: SessionModel, stores: Seq<StoreModel>)
    requires
        session.phase == Phase::Live,
        forall|k: int| 0 <= k < stores.len() ==> (#[trigger] stores[k]).well_formed(),
    ensures
        session.sent_live(stores) == follow(session.cursor, stores),
    decreases stores.len(),
{
    if stores.len() > 0 {
        let rest = stores.drop_first();
        assert forall|k: int| 0 <= k < rest.len() implies (#[trigger] rest[k]).well_formed() by {
            assert(rest[k] == stores[k + 1]);
        }
        lemma_deliver_all_advances(session, stores[0]);
        lemma_live_session_follows(session.deliver_all(session.pending(stores[0])), rest);
    }
}

/// What a session sends over its life, backlog first, is what [`follow`]
/// describes for a subscriber without a cursor.
pub proof fn lemma_session_follows(stores: Seq<StoreModel>)
    requires
        forall|k: int| 0 <= k < stores.len() ==> (#[trigger] stores[k]).well_formed(),
    ensures
        SessionModel::sent_in_life(stores) == follow(None, stores),
{
    if stores.len() > 0 {
        let rest = stores.drop_first();
        assert forall|k: int| 0 <= k < rest.len() implies (#[trigger] rest[k]).well_formed() by {
            assert(rest[k] == stores[k + 1]);
        }
        let live = SessionModel::start().greeted().attached();
        lemma_backlog_is_everything(stores[0]);
        assert(live.pending(stores[0]) == stores[0].entries);
        lemma_deliver_all_advances(live, stores[0]);
        lemma_live_session_follows(live.deliver_all(stores[0].entries), rest);
    }
}

/// Every sample that a subscriber receives has a property that every
/// retained sample of every store it looked at has.
pub proof fn lemma_follow_draws_from_stores(
    cursor: Option<nat>,
    stores: Seq<StoreModel>,
    holds: spec_fn(SampleView) -> bool,
)
    requires
        forall|k: int| 0 <= k < stores.len() ==> (#[trigger] stores[k]).well_formed(),
        forall|k: int, i: int|
            0 <= k < stores.len() && 0 <= i < stores[k].entries.len() ==> holds(
                #[trigger] stores[k].entries[i],
            ),
    ensures
        forall|i: int|
            0 <= i < follow(cursor, stores).len() ==> holds(#[trigger] follow(cursor, stores)[i]),
    decreases stores.len(),
{
    if stores.len() > 0 {
        let batch = stores[0].entries_after(cursor);
        let rest = stores.drop_first();
        assert forall|k: int| 0 <= k < rest.len() implies (#[trigger] rest[k]).well_formed() by {
            assert(rest[k] == stores[k + 1]);
        }
        assert forall|k: int, i: int|
            0 <= k < rest.len() && 0 <= i < rest[k].entries.len() implies holds(
            #[trigger] rest[k].entries[i],
        ) by {
            assert(rest[k] == stores[k + 1]);
        }
        lemma_follow_draws_from_stores(advance(cursor, batch), rest, holds);
        lemma_entries_after_is_tail(stores[0], cursor);
        let from = stores[0].position_after(cursor);
        let sent = follow(cursor, stores);
        assert forall|i: int| 0 <= i < sent.len() implies holds(#[trigger] sent[i]) by {
            if i < batch.len() {
                assert(sent[i] == stores[0].entries[from + i]);
            } else {
                assert(sent[i] == follow(advance(cursor, batch), rest)[i - batch.len()]);
            }
        }
    }
}

/// Whatever states of the store a subscriber finds, what it receives lies
/// beyond the cursor it started from and ascends strictly by number: nothing
/// comes twice, and nothing comes out of order.
pub proof fn lemma_follow_ascends(cursor: Option<nat>, stores: Seq<StoreModel>)
    requires
        forall|k: int| 0 <= k < stores.len() ==> (#[trigger] stores[k]).well_formed(),
    ensures
        forall|i: int|
            0 <= i < follow(cursor, stores).len() ==> is_after(
                #[trigger] follow(cursor, stores)[i],
                cursor,
            ),
        forall|i: int, j: int|
            0 <= i < j < follow(cursor, stores).len() ==> (
            #[trigger] follow(cursor, stores)[i]).sequence < (
            #[trigger] follow(cursor, stores)[j]).sequence,
    decreases stores.len(),
{
    if stores.len() > 0 {
        let batch = stores[0].entries_after(cursor);
        let rest = stores.drop_first();
        let moved = advance(cursor, batch);
        let later = follow(moved, rest);
        let sent = follow(cursor, stores);
        assert forall|k: int| 0 <= k < rest.len() implies (#[trigger] rest[k]).well_formed() by {
            assert(rest[k] == stores[k + 1]);
        }
        lemma_follow_ascends(moved, rest);
        lemma_batch_ascends(stores[0], cursor);
        assert forall|i: int| 0 <= i < sent.len() implies is_after(#[trigger] sent[i], cursor) by {
            if i < batch.len() {
                assert(sent[i] == batch[i]);
            } else {
                assert(sent[i] == later[i - batch.len()]);
                assert(is_after(later[i - batch.len()], moved));
                if batch.len() > 0 {
                    assert(is_after(batch[batch.len() - 1], cursor));
                }
            }
        }
        assert forall|i: int, j: int| 0 <= i < j < sent.len() implies (#[trigger] sent[i]).sequence
            < (#[trigger] sent[j]).sequence by {
            if j < batch.len() {
                assert(sent[i] == batch[i]);
                assert(sent[j] == batch[j]);
            } else if i < batch.len() {
                assert(sent[i] == batch[i]);
                assert(sent[j] == later[j - batch.len()]);
                assert(is_after(later[j - batch.len()], moved));
                assert(batch[i].sequence <= batch[batch.len() - 1].sequence);
            } else {
                assert(sent[i] == later[i - batch.len()]);
                assert(sent[j] == later[j - batch.len()]);
            }
        }
    }
}

/// A subscriber that stays connected while the writer appends `arrivals`
/// receives some of them, each as it was appended and under the number of its
/// place, in the order of appending and none twice.
pub proof fn lemma_follow_is_subsequence_of_arrivals(
    window: int,
    arrivals: Seq<Arrival>,
    seen: Seq<int>,
)
    requires
        forall|k: int| 0 <= k < seen.len() ==> 0 <= #[trigger] seen[k] <= arrivals.len(),
    ensures
        ({
            let sent = follow(None, observed(window, arrivals, seen));
            &&& forall|i: int|
                0 <= i < sent.len() ==> (#[trigger] sent[i]).sequence < arrivals.len() && sent[i]
                    == numbered(arrivals)[sent[i].sequence as int]
            &&& forall|i: int, j: int|
                0 <= i < j < sent.len() ==> (#[trigger] sent[i]).sequence < (
                #[trigger] sent[j]).sequence
        }),
{
    let stores = observed(window, arrivals, seen);
    let holds = |s: SampleView|
        s.sequence < arrivals.len() && s == numbered(arrivals)[s.sequence as int];
    assert forall|k: int| 0 <= k < stores.len() implies (#[trigger] stores[k]).well_formed() by {
        lemma_retains_latest_arrivals(window, arrivals.take(seen[k]));
    }
    assert forall|k: int, i: int|
        0 <= k < stores.len() && 0 <= i < stores[k].entries.len() implies holds(
        #[trigger] stores[k].entries[i],
    ) by {
        let early = arrivals.take(seen[k]);
        lemma_retains_latest_arrivals(window, early);
        let place = early.len() - stores[k].entries.len() + i;
        assert(stores[k].entries[i] == numbered(early)[place]);
        assert(early[place] == arrivals[place]);
    }
    lemma_follow_draws_from_stores(None, stores, holds);
    lemma_follow_ascends(None, stores);
    let sent = follow(None, stores);
    assert forall|i: int| 0 <= i < sent.len() implies (#[trigger] sent[i]).sequence
        < arrivals.len() && sent[i] == numbered(arrivals)[sent[i].sequence as int] by {
        assert(holds(sent[i]));
    }
}

/// A subscriber that attaches after some appends, while nothing has been
/// dropped yet, first receives exactly what was appended, in order; whatever
/// comes later comes after that.
pub proof fn lemma_late_join_receives_backlog(
    window: int,
    arrivals: Seq<Arrival>,
    later: Seq<StoreModel>,
)
    requires
        StoreModel::empty(window).after(arrivals).evicted() == 0,
    ensures
        ({
            let found = StoreModel::empty(window).after(arrivals);
            let sent = follow(None, seq![found] + later);
            &&& SessionModel::start().greeted().backlog(found) == numbered(arrivals)
            &&& arrivals.len() <= sent.len()
            &&& sent.take(arrivals.len() as int) == numbered(arrivals)
        }),
{
    let found = StoreModel::empty(window).after(arrivals);
    let stores = seq![found] + later;
    lemma_retains_latest_arrivals(window, arrivals);
    lemma_complete_before_eviction(window, arrivals);
    lemma_backlog_is_everything(found);
    let batch = stores[0].entries_after(None);
    assert(batch == numbered(arrivals));
    let sent = follow(None, stores);
    assert(sent.take(arrivals.len() as int) =~= numbered(arrivals));
}

/// No append goes unnoticed: in a store whose window is not negative, a
/// subscriber whose cursor is a number that the store has given out finds
/// the sample just appended among what lies beyond its cursor, as the last
/// of it. A subscriber that looks after an append therefore never has to
/// wait for that append.
pub proof fn lemma_append_leaves_something_pending(
    store: StoreModel,
    cursor: Option<nat>,
    timestamp: int,
    reading: ReadingView,
)
    requires
        store.well_formed(),
        store.window >= 0,
        cursor matches Some(last) ==> last < store.next_sequence,
    ensures
        store.append(timestamp, reading).entries_after(cursor).len() > 0,
        store.append(timestamp, reading).entries_after(cursor).last() == (SampleView {
            sequence: store.next_sequence,
            timestamp,
            reading,
        }),
{
    let grown = store.append(timestamp, reading);
    lemma_append_well_formed(store, timestamp, reading);
    lemma_append_retains_newest(store, timestamp, reading);
    lemma_entries_after_is_tail(grown, cursor);
    let newest = grown.entries.len() - 1;
    assert(grown.entries[newest].sequence == store.next_sequence);
    assert(grown.entries[0].sequence == grown.next_sequence - grown.entries.len());
}

} // verus!
