//! Decisions and what came of them.

pub mod laws;
pub mod memory;
pub mod types;
