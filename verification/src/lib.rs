//! Daiana: a room-based binary WebSocket relay.
//!
//! The library holds the relay's logic: the binary wire protocol, the room registry and
//! its rules, the routing decisions for incoming packets, and the configuration parsing.

pub mod channel;
pub mod config;
pub mod packet;
pub mod service;
pub mod util;
