//! Serving one connection: parsing, storage and responses.

pub mod connection;
pub mod driver;
pub mod parser;
pub mod session;
pub mod statements;
