//! The greeter service: its configuration and its greetings.
pub mod config;
pub mod service;
