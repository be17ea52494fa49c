//! Knock Knock: the rules behind a temporary chat room for every public
//! GitHub repository.
pub mod access;
pub mod config;
pub mod connection;
pub mod crypto;
pub mod error;
pub mod headers;
pub mod links;
pub mod markdown;
pub mod messages;
pub mod polling;
pub mod presence;
pub mod ratelimit;
pub mod resolve;
pub mod text;
pub mod time;
pub mod validate;
