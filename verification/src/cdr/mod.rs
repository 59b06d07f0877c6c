//! Call detail records, for billing and audit.

pub mod laws;
pub mod types;
pub mod writer;
