//! Rooms (channels) and their clients.

pub mod channel_manager;
pub mod room;

pub use channel_manager::ChannelManager;
pub use room::Channel;
pub use room::Client;
pub use room::RoomView;
