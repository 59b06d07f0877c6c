//! The core of an SMPP proxy: message firewalls, account rules, load
//! balancing, configuration checking, session handling and delivery records.

pub mod admin;
pub mod bootstrap;
pub mod cdr;
pub mod cluster;
pub mod collections;
pub mod config;
pub mod double;
pub mod feedback;
pub mod filter;
pub mod firewall;
pub mod forwarder;
pub mod laws;
pub mod listener;
pub mod net;
pub mod pdu;
pub mod pipeline;
pub mod regexes;
pub mod text;
pub mod time;
