//! The HTTP gateway: its configuration and how its errors are answered.
pub mod config;
pub mod error;
pub mod handlers;
