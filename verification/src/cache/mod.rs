//! The values that keys hold, and the commands that change them.

pub mod score;
pub mod sorted_set;
pub mod cas;
pub mod hash;
pub mod laws;
pub mod list;
pub mod value_object;
pub mod zset;
