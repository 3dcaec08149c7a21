//! Networking and dispatch core of a game-server simulation speaking the
//! BNet binary RPC protocol.
//!
//! The crate is organised from the wire upwards: varint and header
//! encodings, the streaming frame codec, request/response envelopes, the
//! service registry, the per-connection routing engine and the session
//! lifecycle.

pub mod hashing;
pub mod varint;
pub mod header;
pub mod frame;
pub mod transport;
pub mod service_info;
pub mod service;
pub mod message;
pub mod connection;
pub mod authentication;
pub mod registry;
pub mod session;
pub mod router;
