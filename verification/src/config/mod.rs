//! Configuration: its types, its checks and its stores.

pub mod laws;
pub mod loader;
pub mod store;
pub mod types;
pub mod watcher;
