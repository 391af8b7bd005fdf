//! The values that requests and responses carry.

pub mod players;
