//! Verified core of a DEX market-data command-line client.
//!
//! The heart of the crate is the real-time price stream client: a line
//! framer that cuts a raw byte stream into wire records, an event decoder
//! that turns one record into a normalized price event, a watchlist loader
//! that validates a user-supplied token list, and a session state machine
//! that enforces the consumption limit and the terminal outcomes.

pub mod controller;
pub mod events;
pub mod framer;
pub mod json;
pub mod models;
pub mod session;
pub mod text;
pub mod watchlist;
pub mod wire;
