//! Errors shared by every service, their HTTP and gRPC answers, and the
//! reporting of their causes.
pub mod app_error;
pub mod common_error;
pub mod error_logic;
pub mod grpc;
