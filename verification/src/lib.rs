//! Sampling, aggregation and publishing pipeline of a host metrics agent.
//!
//! A collector samples CPU and memory utilization on a short tick and, when
//! asked, summarizes the samples taken since the last summary; a publisher
//! hands each summary to a sink; a coordinator shuts both down in order.
//! The three are state machines: their driver does the waiting, the sending
//! and the receiving, and tells them what happened.

pub mod cloudwatch;
pub mod collector;
pub mod config;
pub mod heartbeat;
pub mod memory;
pub mod metrics;
pub mod pipeline;
pub mod publisher;
pub mod shutdown;
pub mod stats;
pub mod text;

use crate::metrics::Measurement;
use vstd::prelude::*;

verus! {

/// The time between two samples, in milliseconds.
pub const MEASUREMENT_PERIOD_MS: u64 = 900;

/// The time between two summaries where none is configured, in seconds.
pub const DEFAULT_PUBLISH_PERIOD_SECS: u32 = 60;

/// The number of messages that a queue between two tasks holds.
pub const QUEUE_CAPACITY: usize = 4;

/// A message to the publisher.
#[derive(Clone, Copy, Debug, PartialEq, Eq)]
pub enum PublisherMessage {
    /// The summary of a window, to be handed to the sink.
    Metric(Measurement),
    /// The request to stop.
    Quit,
}

/// A message to the collector.
#[derive(Clone, Copy, Debug, PartialEq, Eq, Structural)]
pub enum CollectorMessage {
    /// The request to summarize the samples taken so far.
    Aggregation,
    /// The request to stop.
    Quit,
}

} // verus!
