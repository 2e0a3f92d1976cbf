use common::configuration::config::BaseConfig;
use common::configuration::logging::{LogFormat, LoggingConfig};
use common::configuration::logic::LoadOutcome;
use common::configuration::service::ServiceConfig;

fn base(name: &str, level: &str) -> BaseConfig {
    BaseConfig {
        service: ServiceConfig { name: name.to_string(), version: "0.1.0".to_string() },
        logging: LoggingConfig { level: level.to_string(), format: LogFormat::Pretty },
    }
}

#[test]
fn validations_test_validation_empty_service_name() {
    let result = BaseConfig::load_from_path(LoadOutcome::Parsed(base("", "info")));
    assert!(result.is_err());

    let err = result.unwrap_err();
    assert!(err.contains("Service name cannot be empty"));
    assert_eq!(err.status_code(), 500);
}

#[test]
fn validations_test_validation_invalid_log_level() {
    let result = BaseConfig::load_from_path(LoadOutcome::Parsed(base("gateway", "invalid")));
    assert!(result.is_err());
    assert!(result.unwrap_err().contains("Invalid log level"));
}

#[test]
fn validations_test_validation_success() {
    let config = BaseConfig::load_from_path(LoadOutcome::Parsed(base("gateway", "info")));

    assert!(config.is_ok());
}

#[test]
fn every_failing_part_is_reported() {
    let err = BaseConfig::load_from_path(LoadOutcome::Parsed(base("", "loud"))).unwrap_err();
    assert_eq!(
        err.display(),
        "Configuration error: Validation failed: service.name: Service name cannot be empty\nlogging.level: Invalid log level."
    );
}
