//! Ingestion of local git history into a timeline of commit events.
//!
//! The library holds the decisions of the ingestion pipeline as verified
//! functions on plain values: time normalisation, the repository walk, the
//! directory scan, deduplication, the scheduling turn and the query
//! adapter. Reading directories and repositories and talking to the event
//! store is left to the caller, which hands the results in and carries the
//! requested actions out.

pub mod client;
pub mod commit;
pub mod cycle;
pub mod dedup;
pub mod ingestion;
pub mod query;
pub mod server;
pub mod store;
pub mod text;
pub mod time;
pub mod walker;
