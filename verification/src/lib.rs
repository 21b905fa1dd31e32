//! An in-memory replicated key/value store: the dictionary itself, the
//! line-oriented command codec, the append-only operation log fed by the
//! synchronizer, and the replica heartbeat monitor's state machine.
//!
//! All I/O (TCP listeners, heartbeat sockets, channels, configuration files)
//! lives outside this crate; the functions here carry the decisions those
//! loops make, each with its contract.

pub mod commands;
pub mod config;
pub mod replica;
pub mod server_logic;
mod dictionary;

pub use dictionary::Dictionary;
