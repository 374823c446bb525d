//! Storage-event-to-command bridge: groups object-storage change
//! notifications into units of work, pulls the related objects into a
//! working directory, runs an external handler program, detects which
//! files the handler changed, and pushes only those back to storage.
//!
//! This crate holds the verified core: event batching, key-pattern
//! matching, content snapshots and their differences, the pipeline
//! phase machine, and the queue-consumption decisions. The unverified
//! binaries around it perform the actual storage, process and queue
//! I/O and feed their results through the functions defined here.

pub mod app;
pub mod batch;
pub mod conf;
pub mod jq;
pub mod pattern;
pub mod pipeline;
pub mod queue;
pub mod sign;
pub mod store;
pub mod text;
pub mod trigger;

pub use text::chars_of;
pub use text::string_of;
