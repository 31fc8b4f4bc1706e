//! Server configuration.

pub mod cors;
