//! Core of a terminal dashboard for a remote log-analytics service: the
//! background query worker and its shared-state synchronization layer.
//!
//! The library holds the verified logic of that core: pagination of the
//! log-group listing, maintenance of a search index positionally aligned
//! with the listing, snapshotting of query inputs, and the publication of
//! query results while a remote job is polled to completion. The remote
//! calls themselves (network I/O, the polling sleep) live outside the
//! library; the worker hands their outcomes in as plain values.

pub mod index;
pub mod rows;
pub mod state;
pub mod worker;
