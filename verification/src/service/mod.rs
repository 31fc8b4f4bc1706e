//! The decisions of the HTTP and WebSocket endpoints.

pub mod room;
