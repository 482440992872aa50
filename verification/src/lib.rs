//! Synchronization engine for mirroring a remote catalog of paginated,
//! timestamp-ordered entities into a local relational store.
//!
//! The engine resolves, per entity type, how far the local copy has
//! progressed, fetches the next batch from the remote source under a shared
//! admission budget, persists it, and repeats until caught up, across many
//! entity types at once and under a cooperative shutdown protocol.

pub mod api;
pub mod catalog;
pub mod digits;
pub mod limiter;
pub mod localtime;
pub mod report;
pub mod settings;
pub mod statement;
pub mod sync;
pub mod timestamp;
pub mod value;
pub mod worker;
