//! Verified core of a command-line client for the Slack Web API.

pub mod strings;
pub mod sanitize;
pub mod error;
pub mod json;
pub mod width;
pub mod common;
pub mod hexcodec;
pub mod crypto;
pub mod config;
pub mod cli;
pub mod time;
pub mod client;
pub mod output;
