//! The configuration of the server, and what it decides about requests.

pub mod config;
pub mod middleware;
