//! Configuration values shared by every service, their rules, and the
//! decisions taken while a configuration is loaded.
pub mod config;
pub mod logging;
pub mod server;
pub mod service;
pub mod directory;
pub mod secrets;
pub mod logic;
pub mod config_loader;
