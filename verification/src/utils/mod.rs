//! Small tools that the other modules share.

pub mod byte_strings;
pub mod bytes_map;
pub mod list;
pub mod text;
pub mod times;
