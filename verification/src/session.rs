//! One subscriber's view of the store: a phase and a delivery cursor.
//!
//! A session decides what to send; sending is the caller's business. The
//! caller reports every sample that reached the subscriber with
//! [`Session::delivered`] and a broken transport with [`Session::fail`].

use vstd::prelude::*;
use crate::clock::now_seconds;
use crate::sample::{Sample, SampleView, sample_views};
use crate::store::{RetentionStore, StoreModel, cursor_value};

verus! {

/// Where a session stands in its life.
#[derive(Clone, Copy, Debug, PartialEq, Eq, Structural)]
pub enum Phase {
    /// Connected; the subscriber has not been greeted yet.
    Greeting,
    /// Greeted; the backlog has not been taken yet.
    Attaching,
    /// The backlog was taken; the session follows the store.
    Live,
    /// The transport failed; nothing more is sent.
    Closed,
}

/// The subprotocol that the server agrees to speak where a subscriber offers
/// it.
pub const SUBPROTOCOL: &'static str = "rust-websocket";

/// Whether the server's subprotocol is among those that a subscriber
/// offered.
pub fn offers_subprotocol(offered: &[String]) -> (found: bool)
    ensures
        found == (exists|i: int|
            0 <= i < offered@.len() && (#[trigger] offered@[i])@ == SUBPROTOCOL@),
{
    let wanted = SUBPROTOCOL.to_owned();
    let mut i: usize = 0;
    while i < offered.len()
        invariant
            i <= offered@.len(),
            wanted@ == SUBPROTOCOL@,
            forall|k: int| 0 <= k < i ==> (#[trigger] offered@[k])@ != SUBPROTOCOL@,
        decreases offered@.len() - i,
    {
        if offered[i] == wanted {
            return true;
        }
        i += 1;
    }
    false
}

/// The first message to a subscriber: the server's time, in seconds.
#[derive(Clone, Copy, Debug, PartialEq, Eq, Structural)]
pub struct Handshake {
    pub server_time: i64,
}

/// Mathematical value of a [`Session`].
pub struct SessionModel {
    pub phase: Phase,
    /// Number of the last sample that reached the subscriber, if any did.
    pub cursor: Option<nat>,
}

impl SessionModel {
    /// A session that has just connected.
    pub open spec fn start() -> SessionModel {
        SessionModel { phase: Phase::Greeting, cursor: None }
    }

    /// The session after the subscriber has been greeted.
    pub open spec fn greeted(self) -> SessionModel {
        if self.phase == Phase::Greeting {
            SessionModel { phase: Phase::Attaching, cursor: self.cursor }
        } else {
            self
        }
    }

    /// What attaching to `store` yields: everything retained, once.
    pub open spec fn backlog(self, store: StoreModel) -> Seq<SampleView> {
        if self.phase == Phase::Attaching {
            store.entries
        } else {
            Seq::empty()
        }
    }

    /// The session after it has taken its backlog.
    pub open spec fn attached(self) -> SessionModel {
        if self.phase == Phase::Attaching {
            SessionModel { phase: Phase::Live, cursor: self.cursor }
        } else {
            self
        }
    }

    /// What a wake-up yields: the retained samples beyond the cursor.
    pub open spec fn pending(self, store: StoreModel) -> Seq<SampleView> {
        if self.phase == Phase::Live {
            store.entries_after(self.cursor)
        } else {
            Seq::empty()
        }
    }

    /// The live session after the sample numbered `sequence` reached the
    /// subscriber: the cursor moves there, and never backwards.
    pub open spec fn delivered(self, sequence: nat) -> SessionModel {
        if self.phase == Phase::Live && (self.cursor matches Some(last) ==> sequence > last) {
            SessionModel { phase: self.phase, cursor: Some(sequence) }
        } else {
            self
        }
    }

    /// The session after its transport failed.
    pub open spec fn failed(self) -> SessionModel {
        SessionModel { phase: Phase::Closed, cursor: self.cursor }
    }
}

/// Delivery state of one subscriber.
pub struct Session {
    phase: Phase,
    cursor: Option<u64>,
}

impl View for Session {
    type V = SessionModel;

    closed spec fn view(&self) -> SessionModel {
        SessionModel { phase: self.phase, cursor: cursor_value(self.cursor) }
    }
}

impl Session {
    /// The session of a subscriber that has just connected.
    pub fn new() -> (session: Session)
        ensures
            session@ == SessionModel::start(),
    {
        Session { phase: Phase::Greeting, cursor: None }
    }

    /// The greeting for a subscriber that has just connected: the second
    /// that the wall clock shows. Once greeted, a session has no further
    /// greeting to give.
    pub fn greet(&mut self) -> (greeting: Option<Handshake>)
        ensures
            greeting is Some <==> old(self)@.phase == Phase::Greeting,
            final(self)@ == old(self)@.greeted(),
    {
        if self.phase == Phase::Greeting {
            self.phase = Phase::Attaching;
            Some(Handshake { server_time: now_seconds() })
        } else {
            None
        }
    }

    /// The current phase.
    pub fn phase(&self) -> (phase: Phase)
        ensures
            phase == self@.phase,
    {
        self.phase
    }

    /// The number of the last sample delivered, if any was.
    pub fn cursor(&self) -> (cursor: Option<u64>)
        ensures
            cursor_value(cursor) == self@.cursor,
    {
        self.cursor
    }

    /// Takes the backlog: a copy of everything that `store` retains, oldest
    /// first, and the session goes live. In any other phase than `Attaching`
    /// this yields nothing and changes nothing.
    pub fn attach(&mut self, store: &RetentionStore) -> (batch: Vec<Sample>)
        ensures
            sample_views(batch@) == old(self)@.backlog(store@),
            final(self)@ == old(self)@.attached(),
    {
        if self.phase == Phase::Attaching {
            self.phase = Phase::Live;
            store.snapshot()
        } else {
            let batch: Vec<Sample> = Vec::new();
            assert(sample_views(batch@) =~= Seq::empty());
            batch
        }
    }

    /// What is to be sent after a wake-up: copies of the samples that `store`
    /// retains beyond the cursor, oldest first. A session that is not live
    /// has nothing to send.
    pub fn wake(&self, store: &RetentionStore) -> (batch: Vec<Sample>)
        ensures
            sample_views(batch@) == self@.pending(store@),
    {
        if self.phase == Phase::Live {
            store.entries_after(self.cursor)
        } else {
            let batch: Vec<Sample> = Vec::new();
            assert(sample_views(batch@) =~= Seq::empty());
            batch
        }
    }

    /// Whether a live session finds nothing to send in `store` and has to
    /// wait for the next append.
    pub fn must_wait(&self, store: &RetentionStore) -> (idle: bool)
        ensures
            idle == (self@.phase == Phase::Live && self@.pending(store@).len() == 0),
    {
        self.phase == Phase::Live && !store.has_entries_after(self.cursor)
    }

    /// Records that the sample numbered `sequence` reached the subscriber.
    pub fn delivered(&mut self, sequence: u64)
        ensures
            final(self)@ == old(self)@.delivered(sequence as nat),
    {
        if self.phase == Phase::Live {
            let advance = match self.cursor {
                Some(last) => sequence > last,
                None => true,
            };
            if advance {
                self.cursor = Some(sequence);
            }
        }
    }

    /// Records that the transport failed: the session is over.
    pub fn fail(&mut self)
        ensures
            final(self)@ == old(self)@.failed(),
    {
        self.phase = Phase::Closed;
    }
}

} // verus!
