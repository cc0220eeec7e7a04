//! Retention and fan-out of per-process disk I/O samples.
//!
//! A single writer reads the lines of a sampling tool ([`line`]), turns each
//! into a reading and appends it to a [`store::RetentionStore`]
//! ([`ingest`]). The store numbers the readings, keeps the ones inside a
//! sliding time window and hands them out to any number of
//! [`session::Session`]s, each of which follows the store with a cursor of
//! its own. What a store retains after a run of appends is the subject of
//! [`history`]; what a subscriber receives over the life of its session is
//! the subject of [`delivery`].
//!
//! Locks, sockets and the child process are the caller's business: nothing
//! here blocks, and nothing here does I/O.

mod clock;
pub mod decimal;
pub mod delivery;
pub mod history;
pub mod ingest;
pub mod line;
pub mod sample;
pub mod seq_facts;
pub mod session;
pub mod settings;
pub mod store;
