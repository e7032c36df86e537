//! A Redis-like cache: an expiring key/value table, publish/subscribe, and the
//! rules of the commands that a server runs against them.

pub mod cache;
pub mod error;
pub mod mocha;
pub mod network;
pub mod protocol;
pub mod pub_sub;
pub mod utils;
pub mod value;
