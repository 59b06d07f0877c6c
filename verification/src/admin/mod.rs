//! What the server tells about itself.

pub mod handlers;
pub mod laws;
pub mod server;
