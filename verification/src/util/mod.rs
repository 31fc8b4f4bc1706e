//! Shared utilities: errors, the clock, configuration values and log formatting.

pub mod error;
pub mod parse;
pub mod pretty_logger;
pub mod text;
pub mod time;
