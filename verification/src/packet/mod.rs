//! The binary wire protocol: packets sent by clients and packets sent by the server,
//! and the decisions of who receives them.

pub mod helper;
pub mod input;
pub mod out;
pub mod wire;
