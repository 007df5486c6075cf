//! Discovery of the local network interfaces and the rules of the small HTTP
//! service that publishes them.
//!
//! The crate holds the decisions: how candidate devices are deduplicated, in
//! which order listening ports are tried, what each endpoint answers. Sockets
//! and the HTTP stack belong to the program that embeds it.

pub mod dedup;
pub mod device;
pub mod discovery;
pub mod hardware;
pub mod ports;
pub mod service;
pub mod text;
