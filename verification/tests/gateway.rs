use common::configuration::config::BaseConfig;
use common::configuration::logging::{LogFormat, LoggingConfig};
use common::configuration::logic::{ConfigSource, LoadOutcome, LoadPlan, SecretsStep};
use common::configuration::server::ServerConfig;
use common::configuration::service::ServiceConfig;
use common::gateway::config::{GatewayConfig, ServiceEndpoint, ServicesConfig};
use common::gateway::error::GatewayError;
use common::validation::ConfigValidation;
use figment::providers::{Format, Yaml};
use figment::Figment;
use common::error::common_error::CommonError;
use common::error::grpc::{ForeignError, GrpcStatus, RemoteStatus};
use common::gateway::handlers::{client_timeout_ms, hello_reply};
use common::greeter::service::{GreeterService, HelloResponse};

fn format_of(name: &str) -> LogFormat {
    match name {
        "json" => LogFormat::Json,
        "compact" => LogFormat::Compact,
        _ => LogFormat::Pretty,
    }
}

fn text(v: &serde_json::Value) -> String {
    v.as_str().unwrap().to_string()
}

/// What merging gives: the gateway's configuration, or the reason the
/// merged values do not make one.
fn gateway_outcome(v: &serde_json::Value) -> LoadOutcome<GatewayConfig> {
    let port = match serde_json::from_value::<u16>(v["server"]["port"].clone()) {
        Ok(p) => p,
        Err(e) => return LoadOutcome::ParseFailed(e.to_string()),
    };
    let greeter = &v["services"]["greeter"];
    let config = GatewayConfig {
        base: BaseConfig {
            service: ServiceConfig { name: text(&v["base"]["service"]["name"]), version: text(&v["base"]["service"]["version"]) },
            logging: LoggingConfig {
                level: text(&v["base"]["logging"]["level"]),
                format: format_of(&text(&v["base"]["logging"]["format"])),
            },
        },
        server: ServerConfig { host: text(&v["server"]["host"]), port },
        services: ServicesConfig {
            greeter: ServiceEndpoint {
                url: text(&greeter["url"]),
                // Missing numbers take their type's default, zero.
                timeout_ms: greeter["timeout_ms"].as_u64().unwrap_or(0),
                retries: greeter["retries"].as_u64().map(|r| r as u32).unwrap_or(0),
            },
        },
    };
    LoadOutcome::Parsed(config)
}

fn load(files: &[(&str, &str)]) -> Result<GatewayConfig, GatewayError> {
    let plan = LoadPlan::new(None, "gateway", None);
    let mut figment = Figment::new();
    for source in plan.sources(SecretsStep::NoDirectory) {
        if let ConfigSource::YamlFile(name) = source {
            for (file, content) in files {
                if *file == name.as_str() {
                    figment = figment.merge(Yaml::string(content));
                }
            }
        }
    }
    let value = figment.extract::<serde_json::Value>().unwrap();
    GatewayConfig::load_from_path(gateway_outcome(&value))
}

#[test]
fn test_gateway_config_valid_load() {
    let config_yaml = r#"
base:
  service:
    name: "gateway"
    version: "1.0.0"
  logging:
    level: "info"
    format: "pretty"
server:
  host: "127.0.0.1"
  port: 8080
services:
  greeter:
    url: "http://localhost:50051"
    timeout_ms: 1000
    retries: 5
"#;
    let result = load(&[("config.yaml", config_yaml), ("config.dev.yaml", "{}")]);

    assert!(result.is_ok(), "Config should load successfully: {:?}", result.err());
    let config = result.unwrap();

    assert_eq!(config.base.service.name, "gateway");
    assert_eq!(config.server.port, 8080);
    assert_eq!(config.services.greeter.url, "http://localhost:50051");
}

#[test]
fn test_validation_invalid_url() {
    let config_yaml = r#"
base:
  service:
    name: "gateway"
    version: "1.0.0"
  logging: { level: "info", format: "compact" }
server:
  host: "localhost"
  port: 8080
services:
  greeter:
    url: "not-a-url"  # This should fail validation
"#;
    let result = load(&[("config.yaml", config_yaml), ("config.dev.yaml", "{}")]);

    assert!(result.is_err());
    let err_msg = result.unwrap_err().display();
    assert!(err_msg.contains("Validation failed"));
    assert!(err_msg.contains("url"));
    assert_eq!(
        err_msg,
        "Configuration error: Validation failed: services.greeter.url: Validation error: url [{\"value\": String(\"not-a-url\")}]"
    );
}

#[test]
fn test_validation_port_out_of_range() {
    let config_yaml = r#"
base:
  service: { name: "test", version: "1" }
  logging: { level: "info", format: "json" }
server:
  host: "localhost"
  port: 70000 # Invalid port (> 65535)
services:
  greeter: { url: "http://localhost" }
"#;
    let result = load(&[("config.yaml", config_yaml), ("config.dev.yaml", "{}")]);

    assert!(result.is_err());
    let err_msg = result.unwrap_err().display();
    assert!(err_msg.contains("expected u16"));
}

#[test]
fn test_validation_port_is_zero() {
    let config_yaml = r#"
base:
  service: { name: "test", version: "1" }
  logging: { level: "info", format: "json" }
server:
  host: "localhost"
  port: 0 # Invalid port (< 1)
services:
  greeter: { url: "http://localhost" }
"#;
    let result = load(&[("config.yaml", config_yaml), ("config.dev.yaml", "{}")]);

    assert!(result.is_err());
    let err_msg = result.unwrap_err().display();
    assert!(err_msg.contains("Port cannot be less than 1 or higher than 65.535"));
}

#[test]
fn test_env_override() {
    let config_yaml = r#"
base:
  service: { name: "base", version: "1" }
  logging: { level: "info", format: "json" }
server: { host: "localhost", port: 8080 }
services: { greeter: { url: "http://localhost" } }
"#;
    let config = load(&[("config.yaml", config_yaml), ("config.dev.yaml", "server: { port: 9999 }")]).unwrap();

    assert_eq!(config.server.port, 9999);
}

#[test]
fn service_endpoint_defaults() {
    let endpoint = ServiceEndpoint::default();
    assert_eq!(endpoint.url, "http://localhost");
    assert_eq!(endpoint.timeout_ms, 5000);
    assert_eq!(endpoint.retries, 3);
    assert!(endpoint.validate().is_ok());
}

#[test]
fn empty_host_is_refused() {
    let server = ServerConfig { host: "".to_string(), port: 80 };
    let errors = server.validate().unwrap_err();
    assert_eq!(errors.display(), "host: Host name cannot be empty");
    let server = ServerConfig { host: "localhost".to_string(), port: 65535 };
    assert!(server.validate().is_ok());
}

#[test]
fn greeter_reply_is_stamped_by_the_gateway() {

    let reply = Ok(HelloResponse { message: "Hello, Alice!".to_string(), timestamp: 1 });
    let answer = hello_reply(reply, Ok(1_700_000_000)).unwrap();
    assert_eq!(answer.message, "Hello, Alice!");
    assert_eq!(answer.timestamp, 1_700_000_000);

    let early = hello_reply(Ok(HelloResponse { message: "Hi".to_string(), timestamp: 1 }), Err(10)).unwrap();
    assert_eq!(early.timestamp, 0);

    let status = RemoteStatus { status: GrpcStatus::invalid_argument("Name cannot be empty"), error: ForeignError::new("invalid") };
    let err = hello_reply(Err(status.clone()), Ok(0)).unwrap_err();
    assert_eq!(err, GatewayError::Common(CommonError::GrpcError(status)));
    assert_eq!(err.error_response().status, 400);

    assert_eq!(client_timeout_ms(None), 30000);
    assert_eq!(client_timeout_ms(Some(1000)), 1000);
}

fn status_text(status: &GrpcStatus) -> String {
    format!("status: {:?}, message: {:?}", status.code, status.message)
}

#[test]
fn name_too_long_is_answered_with_bad_request() {
    let refusal = GreeterService::greet(&"A".repeat(101)).unwrap_err();
    let remote = RemoteStatus { error: ForeignError::new(&status_text(&refusal)), status: refusal };
    let response = hello_reply(Err(remote), Ok(0)).unwrap_err().error_response();
    assert_eq!(response.status, 400);
    assert!(response.error.contains("too long"));
}

#[test]
fn greeter_failure_is_answered_with_server_error() {
    let status = GrpcStatus::internal("Database connection failed");
    let remote = RemoteStatus { error: ForeignError::new(&status_text(&status)), status };
    let response = hello_reply(Err(remote), Ok(0)).unwrap_err().error_response();
    assert_eq!(response.status, 500);
    assert!(response.error.contains("Database"));
}
