//! The logic of a small peer-to-peer chat.

pub mod app;
pub mod channel;
pub mod network;
pub mod protocol;
pub mod server;
pub mod text;
