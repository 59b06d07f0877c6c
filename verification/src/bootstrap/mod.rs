//! Start, run and end of the server, and its internal events.

pub mod events;
pub mod laws;
pub mod server;
pub mod shutdown;
pub mod worker;
