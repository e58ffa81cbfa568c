//! Verified topology/flowchart synthesis engine for a container host.
//!
//! The library turns a flat list of container records into a stable
//! category taxonomy, three kinds of navigable graph views (system
//! overview, category view, single-service detail view), and a live
//! resource-metrics overlay computed from raw counter samples. All
//! decision logic, ordering guarantees, and derived-state invariants
//! are stated in contracts and proved; the I/O shell around the
//! library (container runtime calls, HTTP, push channel) hands in
//! plain values and serializes what comes back.
//!
//! Fractional metrics are carried as integer hundredths (`12346`
//! stands for `123.46`), exact rationals rounded half away from zero.

pub mod flowchart;
pub mod models;
pub mod normalize;
pub mod stats;
pub mod strutil;
pub mod topology;
pub mod update;
