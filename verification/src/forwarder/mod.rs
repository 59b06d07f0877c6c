//! The way of a message to an upstream cluster, and of receipts back.

pub mod decisions;
pub mod dlr;
pub mod laws;
pub mod processor;
pub mod retry;
pub mod store;

use crate::time::Duration;
use vstd::prelude::*;

verus! {

/// Configuration of the forwarder.
#[derive(Debug, Clone, Copy, PartialEq, Eq, Structural)]
pub struct ForwarderConfig {
    /// Number of messages that may wait.
    pub channel_size: usize,
    /// Number of messages on their way at the same time.
    pub concurrency: usize,
    /// Time between looks for messages to try again.
    pub retry_interval: Duration,
    /// Delay before the first retry.
    pub base_retry_delay: Duration,
    /// Longest delay before a retry.
    pub max_retry_delay: Duration,
}

impl Default for ForwarderConfig {
    fn default() -> (c: Self)
        ensures
            c.channel_size == 10_000,
            c.concurrency == 100,
            c.retry_interval@ == 1_000_000_000,
            c.base_retry_delay@ == 1_000_000_000,
            c.max_retry_delay@ == 60_000_000_000,
    {
        ForwarderConfig {
            channel_size: 10_000,
            concurrency: 100,
            retry_interval: Duration::from_secs(1),
            base_retry_delay: Duration::from_secs(1),
            max_retry_delay: Duration::from_secs(60),
        }
    }
}

} // verus!
