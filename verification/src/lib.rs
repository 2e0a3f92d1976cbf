//! Shared configuration, validation and error handling for the services of
//! the workspace, with the logic that decides their outcomes verified.
#![allow(unused_imports)]

pub mod text;
pub mod validation;
pub mod configuration;
pub mod error;
pub mod gateway;
pub mod greeter;
pub mod bridge;
pub mod clock;

pub use configuration::config::{AppConfig, BaseConfig};
pub use configuration::directory::{DirectoryEntry, DirectorySnapshot, PathExt};
pub use configuration::logging::{LogFormat, LoggingConfig};
pub use configuration::logic::{LoadOutcome, LoadPlan, ServiceConfigLogic};
pub use configuration::server::ServerConfig;
pub use configuration::service::ServiceConfig;
pub use error::app_error::AppError;
pub use error::common_error::CommonError;
pub use error::error_logic::ErrorLogic;
pub use error::grpc::{ForeignError, GrpcCode, GrpcStatus, RemoteStatus};
pub use gateway::config::{GatewayConfig, ServiceEndpoint, ServicesConfig};
pub use gateway::error::GatewayError;
pub use greeter::config::GreeterConfig;
pub use greeter::service::GreeterService;
