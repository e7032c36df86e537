//! The commands of clients.

pub mod client;
pub mod hvals;
pub mod info;
pub mod laws;
pub mod lua_env;
pub mod select;
pub mod sentinels;
