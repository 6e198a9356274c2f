//! Verified core of a publish/subscribe sensor-polling pipeline.
//!
//! Remote sensors announce themselves with heartbeat messages; the core
//! deduplicates their registrations, groups them into per-interval polling
//! cohorts, plans bounded-concurrency request/response exchanges, normalizes
//! the results into readings, and tears everything down when a consumer
//! detaches.  All decisions live here and are verified; the transport, the
//! timers and the wire encodings are driven by a thin unverified shell.

pub mod config;
pub mod manager;
pub mod poller;
pub mod reading;
pub mod registry;
pub mod schedule;
pub mod sensor;
pub mod session;
pub mod topic;
