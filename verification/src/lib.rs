//! Admission control for a small record API.
//!
//! A per-client token bucket decides whether a request may pass, an eviction
//! sweep reclaims the buckets of clients that went quiet, and a request gate
//! ties both to the record service behind it.  Record identifiers travel as
//! decimal strings so that no consumer loses precision on them.

pub mod answer;
pub mod bucket;
pub mod codec;
pub mod config;
pub mod gate;
pub mod peer;
pub mod record;
pub mod route;
pub mod scheduler;
pub mod store;
