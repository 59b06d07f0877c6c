//! Rule engine for message filtering: chains of rules with composable
//! conditions, rate limits, time windows and external lists.

pub mod chain_laws;
pub mod context;
pub mod engine;
pub mod laws;
pub mod types;
