use common::bridge::{implement_structure_exporter, BridgeConversion, ConversionLog, EnumShape, FieldsShape, VariantShape};
use common::configuration::logic::{
    auto_base_dir, get_env_prefix, get_secrets_dir, get_service_name, BaseDirChoice, ConfigSource, LoadPlan,
    SecretsStep,
};
use common::configuration::logging::{validate_log_format, validate_log_level, LogFormat, LoggingConfig};
use common::validation::ConfigValidation;

#[test]
fn env_prefix_upper_cases_and_replaces_hyphens() {
    assert_eq!(get_env_prefix("gateway"), "GATEWAY__");
    assert_eq!(get_env_prefix("greeter-service"), "GREETER_SERVICE__");
    assert_eq!(get_env_prefix("api-v2"), "API_V2__");
}

#[test]
fn service_name_falls_back_to_app() {
    assert_eq!(get_service_name(Some("gateway".to_string())), "gateway");
    assert_eq!(get_service_name(None), "APP");
}

#[test]
fn secrets_dir_defaults_to_run_secrets() {
    assert_eq!(get_secrets_dir(None), "/run/secrets");
    assert_eq!(get_secrets_dir(Some("./secrets".to_string())), "./secrets");
}

#[test]
fn plan_sources_in_priority_order() {
    let plan = LoadPlan::new(None, "greeter-service", None);
    assert_eq!(plan.env, "dev");
    assert_eq!(plan.secrets_dir, "/run/secrets");
    let env = |p: &str| ConfigSource::Environment { prefix: p.to_string(), separator: "__".to_string() };
    let without = vec![
        ConfigSource::YamlFile("config.yaml".to_string()),
        ConfigSource::YamlFile("config.dev.yaml".to_string()),
        env("APP__"),
        env("GREETER_SERVICE__"),
    ];
    assert_eq!(plan.sources(plan.secrets_step(false, false)), without);
    assert_eq!(plan.sources(plan.secrets_step(true, false)), without);
    let mut with = without.clone();
    with.push(ConfigSource::Secrets);
    assert_eq!(plan.secrets_step(true, true), SecretsStep::Load);
    assert_eq!(plan.sources(SecretsStep::Load), with);
}

#[test]
fn base_dir_discovery_order() {
    assert_eq!(auto_base_dir(true, true, true), BaseDirChoice::CurrentDir);
    assert_eq!(auto_base_dir(false, true, true), BaseDirChoice::ServiceDir);
    assert_eq!(auto_base_dir(false, false, true), BaseDirChoice::ServicesDir);
    assert_eq!(auto_base_dir(false, false, false), BaseDirChoice::CurrentDir);
    assert_eq!(BaseDirChoice::ServicesDir.components("greeter"), vec!["services".to_string(), "greeter".to_string()]);
    assert_eq!(BaseDirChoice::CurrentDir.components("greeter"), Vec::<String>::new());
}

#[test]
fn log_levels_and_formats() {
    for level in ["trace", "debug", "info", "warn", "error"] {
        assert!(validate_log_level(level).is_ok());
    }
    assert_eq!(validate_log_level("INFO").unwrap_err().code, "invalid_log_level");
    assert!(validate_log_format(&LogFormat::Json).is_ok());
    let bad = LoggingConfig { level: "verbose".to_string(), format: LogFormat::Json };
    assert_eq!(bad.validate().unwrap_err().display(), "level: Invalid log level.");
}

#[test]
fn layer_settings_per_format() {
    let json = LoggingConfig { level: "info".to_string(), format: LogFormat::Json }.layer_settings();
    assert!(json.file && json.line_number && json.thread_ids);
    assert_eq!(json.target, Some(true));
    let compact = LoggingConfig { level: "info".to_string(), format: LogFormat::Compact }.layer_settings();
    assert!(!compact.file && !compact.line_number && !compact.thread_ids);
    assert_eq!(compact.target, None);
}

fn variant(name: &str, bridge: bool, fields: FieldsShape) -> VariantShape {
    VariantShape { name: name.to_string(), bridge, fields }
}

fn unnamed(ty: &str) -> FieldsShape {
    FieldsShape::Unnamed(vec![ty.to_string()])
}

#[test]
fn exporter_keeps_first_bridged_variant_per_type() {
    let input = EnumShape {
        name: "CommonError".to_string(),
        variants: vec![
            variant("ConfigError", false, unnamed("String")),
            variant("AddrParseError", true, unnamed("std :: net :: AddrParseError")),
            variant("TransportError", true, unnamed("tonic :: transport :: Error")),
            variant("IoRead", true, unnamed("std :: io :: Error")),
            variant("IoWrite", true, unnamed("std :: io :: Error")),
            variant("Named", true, FieldsShape::Named),
            variant("Unit", true, FieldsShape::Unit),
            variant("Empty", true, FieldsShape::Unnamed(vec![])),
            variant("Other", false, unnamed("String")),
        ],
    };
    let exporter = implement_structure_exporter(&input);
    assert_eq!(exporter.macro_name, "propagate_commonerror");
    assert_eq!(exporter.enum_name, "CommonError");
    let conv = |v: &str, t: &str| BridgeConversion {
        variant: v.to_string(),
        source_type: t.to_string(),
        log: ConversionLog {
            level: "error".to_string(),
            error_type: t.to_string(),
            error_variant: v.to_string(),
            message_prefix: "Error bridged to ".to_string(),
        },
    };
    assert_eq!(
        exporter.conversions,
        vec![
            conv("AddrParseError", "std :: net :: AddrParseError"),
            conv("TransportError", "tonic :: transport :: Error"),
            conv("IoRead", "std :: io :: Error"),
        ]
    );
}

#[test]
fn exporter_of_the_documented_example() {
    let input = EnumShape {
        name: "MyError".to_string(),
        variants: vec![variant("Io", true, unnamed("std :: io :: Error")), variant("Custom", false, unnamed("String"))],
    };
    let exporter = implement_structure_exporter(&input);
    assert_eq!(exporter.macro_name, "propagate_myerror");
    assert_eq!(exporter.conversions.len(), 1);
    let c = &exporter.conversions[0];
    assert_eq!((c.variant.as_str(), c.source_type.as_str()), ("Io", "std :: io :: Error"));
    assert_eq!(c.log.level, "error");
    assert_eq!(c.log.error_variant, "Io");
    assert_eq!(c.log.error_type, "std :: io :: Error");
    assert_eq!(c.log.message_prefix, "Error bridged to ");
}
