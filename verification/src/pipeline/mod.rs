//! Stages through which submitted messages pass.

pub mod filter;
pub mod forwarder;
pub mod laws;
pub mod response;
pub mod router;

use vstd::prelude::*;

verus! {

/// Configuration of the pipeline.
#[derive(Debug, Clone, Copy, PartialEq, Eq, Structural)]
pub struct PipelineConfig {
    /// Number of messages that are forwarded at the same time.
    pub forward_concurrency: usize,
    /// Seconds to wait for an upstream answer.
    pub upstream_timeout_secs: u64,
}

impl Default for PipelineConfig {
    fn default() -> (c: Self)
        ensures
            c.forward_concurrency == 100,
            c.upstream_timeout_secs == 30,
    {
        PipelineConfig { forward_concurrency: 100, upstream_timeout_secs: 30 }
    }
}

} // verus!
