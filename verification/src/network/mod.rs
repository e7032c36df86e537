//! Connections of clients.

pub mod buffer;
pub mod codec;
pub mod connection;
