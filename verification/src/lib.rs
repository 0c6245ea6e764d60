//! Watches a configured set of cluster resource types for applied objects and
//! fans each observation out to a configured set of notification sinks
//! (webhook, topic, queue), with per-sink retry policy and cooperative,
//! bounded shutdown.
//!
//! This crate holds the verified pipeline logic; process bootstrap and the
//! network transports live outside it and hand plain values in and out.

pub mod aggregator;
pub mod api_resource;
pub mod codec;
pub mod json;
pub mod notifier;
pub mod object;
pub mod retry;
pub mod supervisor;
pub mod watcher;
