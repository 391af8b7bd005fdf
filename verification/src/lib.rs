//! Core of a small leaderboard service: admission control per client,
//! request parsing, routing and response framing.

pub mod body;
pub mod clock;
pub mod db;
pub mod decimal;
pub mod error;
pub mod handlers;
pub mod registry;
pub mod request;
pub mod text;
pub mod throttle;
pub mod whitespace;
