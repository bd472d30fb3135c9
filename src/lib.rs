//! Relay broker that lets guests reach an owner's local git repository
//! through a shared store, a pair of notification channels and a websocket.

pub mod error;
pub mod types;
pub mod cgi;
pub mod store;
pub mod owner;
pub mod guest;
pub mod auth;
pub mod cli;
