//! Incoming connections and their sessions.

pub mod acceptor;
pub mod connection;
pub mod laws;
pub mod random;
pub mod registry;
pub mod session;
