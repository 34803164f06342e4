//! Core logic of a terminal dashboard for jobs managed by an external
//! batch scheduler: feed parsing and merging, the job collection with its
//! sort and selection invariants, the one-fetch-at-a-time refresh worker,
//! and the action dispatch that applies at most one state change per cycle.

pub mod job;
pub mod strutil;
pub mod dispatch;
pub mod executor;
pub mod feed;
pub mod joblist;
pub mod options;
pub mod salloc;
pub mod worker;
