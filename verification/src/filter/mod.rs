//! Filters that a request passes before it is routed.

pub mod auth;
pub mod chain;
pub mod client_laws;
pub mod esme;
pub mod firewall;
pub mod laws;
pub mod ratelimit;
pub mod record_laws;
pub mod request;
