use common::configuration::config::BaseConfig;
use common::configuration::config_loader;
use common::configuration::directory::{DirectoryEntry, DirectorySnapshot, PathExt};
use common::configuration::logging::{LogFormat, LoggingConfig};
use common::configuration::logic::{validation_failure, ConfigSource, LoadOutcome, LoadPlan, SecretsStep};
use common::configuration::server::ServerConfig;
use common::validation::{ErrorEntry, ErrorParam, ErrorsKind, FieldError, ParamValue, ValidationErrors};
use common::configuration::secrets::load_secrets_from_dir;
use common::configuration::service::ServiceConfig;
use common::error::app_error::AppError;
use common::error::common_error::CommonError;
use common::validation::ConfigValidation;
use figment::providers::{Format, Yaml};
use figment::Figment;
use std::io::Write;
use std::sync::{Arc, Mutex, OnceLock};
use tracing::callsite::{Callsite, Identifier};
use tracing::field::{FieldSet, Value};
use tracing::metadata::Kind;
use tracing::subscriber::Interest;
use tracing::{Event, Level, Metadata};

// ----- capturing log output -----

struct Capture(Arc<Mutex<Vec<u8>>>);

impl Write for Capture {
    fn write(&mut self, buf: &[u8]) -> std::io::Result<usize> {
        self.0.lock().unwrap().extend_from_slice(buf);
        Ok(buf.len())
    }
    fn flush(&mut self) -> std::io::Result<()> {
        Ok(())
    }
}

struct TestSite {
    meta: OnceLock<&'static Metadata<'static>>,
}

impl Callsite for TestSite {
    fn set_interest(&self, _interest: Interest) {}
    fn metadata(&self) -> &Metadata<'_> {
        self.meta.get().unwrap()
    }
}

fn event_metadata(level: Level, names: &'static [&'static str]) -> &'static Metadata<'static> {
    let site: &'static TestSite = Box::leak(Box::new(TestSite { meta: OnceLock::new() }));
    let meta: &'static Metadata<'static> = Box::leak(Box::new(Metadata::new(
        "event",
        "configuration",
        level,
        None,
        None,
        None,
        FieldSet::new(names, Identifier(site)),
        Kind::EVENT,
    )));
    site.meta.set(meta).unwrap();
    meta
}

fn emit_message(level: Level, message: &str) {
    let meta = event_metadata(level, &["message"]);
    let fields = meta.fields();
    let message_field = fields.field("message").unwrap();
    let message_value = tracing::field::display(message);
    let values = [(&message_field, Some(&message_value as &dyn Value))];
    let value_set = fields.value_set(&values);
    Event::dispatch(meta, &value_set);
}

/// Runs `f` with a subscriber set up as the library sets up logging for
/// `config`, and returns what was written.
fn captured_logs(config: &LoggingConfig, f: impl FnOnce()) -> String {
    let buffer = Arc::new(Mutex::new(Vec::new()));
    let sink = buffer.clone();
    let settings = config.layer_settings();
    let subscriber = tracing_subscriber::fmt()
        .with_writer(move || Capture(sink.clone()))
        .with_ansi(false)
        .with_file(settings.file)
        .with_line_number(settings.line_number)
        .with_thread_ids(settings.thread_ids)
        .with_max_level(config.level.parse::<Level>().unwrap())
        .finish();
    tracing::subscriber::with_default(subscriber, f);
    let bytes = buffer.lock().unwrap().clone();
    String::from_utf8(bytes).unwrap()
}

fn logs_contain(logs: &str, text: &str) -> bool {
    logs.contains(text)
}

#[test]
fn configuration_test_logging_levels() {
    let config = LoggingConfig { level: "info".to_string(), format: LogFormat::Pretty };
    assert!(config.validate().is_ok());
    let logs = captured_logs(&config, || {
        emit_message(Level::DEBUG, "This is a debug message");
        emit_message(Level::INFO, "This is an info message");
        emit_message(Level::WARN, "This is a warning");
        emit_message(Level::ERROR, "This is an error");
    });

    assert!(logs_contain(&logs, "This is an info message"));
}

#[test]
fn configuration_test_structured_fields() {
    let config = LoggingConfig { level: "info".to_string(), format: LogFormat::Compact };
    assert!(config.validate().is_ok());
    let logs = captured_logs(&config, || {
        let meta = event_metadata(Level::INFO, &["message", "user.id", "user.name", "action"]);
        let fields = meta.fields();
        let message = fields.field("message").unwrap();
        let id = fields.field("user.id").unwrap();
        let name = fields.field("user.name").unwrap();
        let action = fields.field("action").unwrap();
        let message_value = tracing::field::display("User logged in");
        let id_value = 123i64;
        let name_value = "Alice";
        let action_value = "login";
        let values = [
            (&message, Some(&message_value as &dyn Value)),
            (&id, Some(&id_value as &dyn Value)),
            (&name, Some(&name_value as &dyn Value)),
            (&action, Some(&action_value as &dyn Value)),
        ];
        let value_set = fields.value_set(&values);
        Event::dispatch(meta, &value_set);
    });

    assert!(logs_contain(&logs, "user.id"));
    assert!(logs_contain(&logs, "123"));
    assert!(logs_contain(&logs, "Alice"));
}

// ----- loading -----

fn format_of(name: &str) -> LogFormat {
    match name {
        "json" => LogFormat::Json,
        "compact" => LogFormat::Compact,
        _ => LogFormat::Pretty,
    }
}

fn text_at(v: &serde_json::Value, path: &[&str]) -> String {
    let mut cur = v;
    for key in path {
        cur = &cur[*key];
    }
    cur.as_str().unwrap().to_string()
}

fn base_config_from(v: &serde_json::Value) -> BaseConfig {
    BaseConfig {
        service: ServiceConfig { name: text_at(v, &["service", "name"]), version: text_at(v, &["service", "version"]) },
        logging: LoggingConfig {
            level: text_at(v, &["logging", "level"]),
            format: format_of(&text_at(v, &["logging", "format"])),
        },
    }
}

/// Merges the YAML files of a plan, in the plan's order, from `files`.
fn merge_files(plan: &LoadPlan, files: &[(&str, &str)]) -> serde_json::Value {
    let mut figment = Figment::new();
    for source in plan.sources(SecretsStep::NoDirectory) {
        if let ConfigSource::YamlFile(name) = source {
            for (file, content) in files {
                if *file == name.as_str() {
                    figment = figment.merge(Yaml::string(content));
                }
            }
        }
    }
    figment.extract::<serde_json::Value>().unwrap()
}

const BASE_YAML: &str = r#"
service:
  name: "gateway"
  version: "0.1.0"
logging:
  level: "info"
  format: "pretty"
"#;

#[test]
fn configuration_test_load_base_config() {
    let plan = LoadPlan::new(None, "gateway", None);
    let value = merge_files(&plan, &[("config.yaml", BASE_YAML)]);
    let config = BaseConfig::load_from_path(LoadOutcome::Parsed(base_config_from(&value))).unwrap();

    assert_eq!(config.service.name, "gateway".to_string());
    assert_eq!(config.service.version, "0.1.0".to_string());
    assert_eq!(config.logging.level, "info");
}

#[test]
fn configuration_test_environment_specific_config() {
    let plan = LoadPlan::new(Some("prod".to_string()), "gateway", None);
    assert_eq!(plan.env_config_file, "config.prod.yaml");
    let prod = r#"
service:
  version: "0.2.0"
logging:
  level: "warn"
  format: "json"
"#;
    let value = merge_files(&plan, &[("config.yaml", BASE_YAML), ("config.prod.yaml", prod)]);
    let config = BaseConfig::load_from_path(LoadOutcome::Parsed(base_config_from(&value))).unwrap();

    assert_eq!(config.service.version, "0.2.0");
    assert_eq!(config.logging.level, "warn".to_string());
    assert_eq!(config.service.name, "gateway".to_string());
}

#[test]
fn configuration_test_validation_empty_service_name() {
    let config = BaseConfig {
        service: ServiceConfig { name: "".to_string(), version: "0.1.0".to_string() },
        logging: LoggingConfig { level: "info".to_string(), format: LogFormat::Pretty },
    };

    let result = config_loader::load_and_validate(Ok(config));
    assert!(result.is_err());

    let err = result.unwrap_err();
    assert!(matches!(err, AppError::ConfigError(_)));
    assert_eq!(err.status_code(), 500);
}

#[test]
fn configuration_test_validation_invalid_log_level() {
    let config = BaseConfig {
        service: ServiceConfig { name: "gateway".to_string(), version: "0.1.0".to_string() },
        logging: LoggingConfig { level: "invalid".to_string(), format: LogFormat::Pretty },
    };

    let result = config_loader::load_and_validate(Ok(config));
    assert!(result.is_err());
    assert!(result.unwrap_err().display().contains("Invalid log level"));
}

#[test]
fn configuration_test_validation_success() {
    let config = BaseConfig {
        service: ServiceConfig { name: "gateway".to_string(), version: "0.1.0".to_string() },
        logging: LoggingConfig { level: "info".to_string(), format: LogFormat::Pretty },
    };

    assert!(config_loader::load_and_validate(Ok(config)).is_ok());
}

#[test]
fn configuration_test_validation_failure() {
    let config = BaseConfig {
        service: ServiceConfig { name: "".to_string(), version: "0.1.0".to_string() },
        logging: LoggingConfig { level: "info".to_string(), format: LogFormat::Pretty },
    };
    let result = BaseConfig::load_from_path(LoadOutcome::Parsed(config));

    assert!(result.is_err());
    assert!(result.unwrap_err().contains("Validation failed"));
}

#[test]
fn config_logic_test_validation_failure() {
    let plan = LoadPlan::new(Some("test".to_string()), "gateway", None);
    assert_eq!(plan.env_config_file, "config.test.yaml");
    let config = BaseConfig {
        service: ServiceConfig { name: "gateway".to_string(), version: "".to_string() },
        logging: LoggingConfig { level: "info".to_string(), format: LogFormat::Pretty },
    };
    let result = BaseConfig::load_from_path(LoadOutcome::Parsed(config));

    match result {
        Err(CommonError::ConfigError(m)) => assert!(m.contains("Validation failed")),
        _ => panic!("Expected ConfigError from validation"),
    }
}

#[test]
fn validation_failure_names_the_nested_field() {
    let config = BaseConfig {
        service: ServiceConfig { name: "".to_string(), version: "0.1.0".to_string() },
        logging: LoggingConfig { level: "info".to_string(), format: LogFormat::Pretty },
    };
    let err = BaseConfig::load_from_path(LoadOutcome::Parsed(config)).unwrap_err();
    assert_eq!(
        err,
        CommonError::ConfigError("Validation failed: service.name: Service name cannot be empty".to_string())
    );
}

#[test]
fn test_missing_config_file() {
    let result = BaseConfig::load_from_path(LoadOutcome::MissingBaseFile {
        location: "/tmp/test_missing_config_file/config.yaml".to_string(),
        current_dir: "Ok(\"/tmp\")".to_string(),
    });

    assert!(result.is_err());
    let err = result.unwrap_err();
    assert!(err.contains("not found"));
    assert_eq!(
        err.display(),
        "Configuration error: Config file not found at: /tmp/test_missing_config_file/config.yaml. Current directory: Ok(\"/tmp\")"
    );
}

#[test]
fn failed_merge_reports_the_reason() {
    let result = BaseConfig::load_from_path(LoadOutcome::ParseFailed("missing field `service`".to_string()));
    assert_eq!(
        result.unwrap_err(),
        CommonError::ConfigError(
            "Failed to parse configuration: missing field `service`. Check YAML syntax and environment variable formats."
                .to_string()
        )
    );
}

#[test]
fn loader_reports_failed_merge_as_is() {
    let result: Result<BaseConfig, AppError> = config_loader::load_and_validate(Err("bad yaml".to_string()));
    assert_eq!(result.unwrap_err(), AppError::ConfigError("bad yaml".to_string()));
}

// ----- secrets -----

fn file(name: &str, content: &str) -> DirectoryEntry {
    DirectoryEntry { file_name: Some(name.to_string()), is_file: true, content: Some(content.to_string()) }
}

#[test]
fn test_load_secrets() {
    let dir = DirectorySnapshot { is_dir: true, entries: vec![file("api_key", "secret123\n"), file("password", "pass456")] };

    let secrets = load_secrets_from_dir(&dir);

    assert_eq!(secrets.len(), 2);
    assert_eq!(secrets.get("api_key").unwrap(), "secret123");
    assert_eq!(secrets.get("password").unwrap(), "pass456");
}

#[test]
fn test_empty_secrets_directory() {
    let dir = DirectorySnapshot { is_dir: true, entries: vec![] };

    let secrets = load_secrets_from_dir(&dir);

    assert_eq!(secrets.len(), 0);
    assert!(!dir.has_files());
}

#[test]
fn test_secret_with_whitespace() {
    let dir = DirectorySnapshot { is_dir: true, entries: vec![file("token", "  \n  secret  \n  ")] };

    let secrets = load_secrets_from_dir(&dir);

    assert_eq!(secrets.get("token").unwrap(), "secret");
}

#[test]
fn secret_keys_are_lower_cased_and_blank_files_skipped() {
    let dir = DirectorySnapshot {
        is_dir: true,
        entries: vec![
            file("API_KEY", "abc"),
            file("empty", "  \n"),
            DirectoryEntry { file_name: Some("nested".to_string()), is_file: false, content: None },
            DirectoryEntry { file_name: Some("unreadable".to_string()), is_file: true, content: None },
            file("api_key", "def"),
        ],
    };
    let secrets = load_secrets_from_dir(&dir);
    assert_eq!(secrets.len(), 1);
    assert_eq!(secrets.get("api_key").unwrap(), "def");
    assert!(secrets.get("API_KEY").is_none());
    assert!(secrets.get("empty").is_none());
    assert!(dir.has_files());
}

#[test]
fn has_files_needs_a_regular_file() {
    let dir = DirectorySnapshot {
        is_dir: true,
        entries: vec![DirectoryEntry { file_name: Some("sub".to_string()), is_file: false, content: None }],
    };
    assert!(!dir.has_files());
    assert!(!dir.is_dir_with_files());
    let with_file = DirectorySnapshot { is_dir: true, entries: vec![file("token", "x")] };
    assert!(with_file.is_dir_with_files());
}

// ----- what a failed validation answers -----

fn field(name: &str, code: &str, message: Option<&str>) -> ErrorEntry {
    ErrorEntry {
        field: name.to_string(),
        kind: ErrorsKind::Field(vec![FieldError {
            code: code.to_string(),
            message: message.map(str::to_string),
            params: vec![],
        }]),
    }
}

#[test]
fn top_level_message_names_the_field() {
    let errors = ServerConfig { host: "".to_string(), port: 0 }.validate().unwrap_err();
    assert_eq!(
        validation_failure(&errors),
        CommonError::ConfigError("Validation failed for 'host': Host name cannot be empty".to_string())
    );
}

#[test]
fn missing_secret_is_reported_as_such() {
    let errors = ValidationErrors {
        entries: vec![field("url", "url", None), field("database_password", "missing_secret", Some("ignored"))],
    };
    assert_eq!(validation_failure(&errors), CommonError::MissingSecret("database_password".to_string()));
}

#[test]
fn required_field_is_reported_missing() {
    let errors = ValidationErrors { entries: vec![field("api_key", "required", None)] };
    assert_eq!(
        validation_failure(&errors),
        CommonError::ConfigError("Required field 'api_key' is missing in configuration".to_string())
    );
}

#[test]
fn undecided_errors_are_reported_whole() {
    let errors = ValidationErrors { entries: vec![field("url", "url", None)] };
    assert_eq!(
        validation_failure(&errors),
        CommonError::ConfigError("Validation failed: url: Validation error: url [{}]".to_string())
    );
}

#[test]
fn parameters_render_as_debug_values() {
    let errors = ValidationErrors {
        entries: vec![ErrorEntry {
            field: "port".to_string(),
            kind: ErrorsKind::Field(vec![FieldError {
                code: "range".to_string(),
                message: None,
                params: vec![ErrorParam { name: "min".to_string(), value: ParamValue::Number(1024) }],
            }]),
        }],
    };
    assert_eq!(errors.display(), "port: Validation error: range [{\"min\": Number(1024)}]");
}

#[test]
fn errors_of_one_field_are_gathered() {
    let bare = |code: &str| FieldError { code: code.to_string(), message: None, params: vec![] };
    let mut errors = ValidationErrors { entries: vec![] };
    errors.add_field("port", vec![bare("range")]);
    errors.add_field("host", vec![bare("length")]);
    errors.add_field("port", vec![bare("custom")]);
    errors.add_field("port", vec![]);
    assert_eq!(errors.entries.len(), 2);
    assert_eq!(
        errors.display(),
        "port: Validation error: range [{}], Validation error: custom [{}]\nhost: Validation error: length [{}]"
    );
    errors.add_nested("port", Ok(()));
    assert_eq!(errors.entries.len(), 2);
}

#[test]
fn an_empty_failed_child_still_gets_an_entry() {
    let mut errors = ValidationErrors { entries: vec![] };
    errors.add_nested("inner", Err(ValidationErrors { entries: vec![] }));
    assert_eq!(errors.entries.len(), 1);
    assert!(!errors.is_empty());
    assert_eq!(errors.display(), "");
}
