//! The plain loader: base file, environment file and `APP__` variables,
//! answered with the application-wide error.
use vstd::prelude::*;
use vstd::string::*;
use crate::configuration::logic::{env_file_name, env_name, ConfigSource, SourceView};
use crate::error::app_error::AppError;
use crate::validation::{render, ConfigValidation};

verus! {

/// The sources the plain loader merges, lowest priority first.
pub open spec fn loader_sources_of(env: Seq<char>) -> Seq<SourceView> {
    seq![
        SourceView::YamlFile("config.yaml"@),
        SourceView::YamlFile(env_file_name(env)),
        SourceView::Environment("APP__"@, "__"@),
    ]
}

/// The sources the plain loader merges for the environment named by
/// `APP_ENV` (or `dev`): `config.yaml`, `config.{env}.yaml`, then variables
/// prefixed `APP__`, nested keys split at `__`.
pub fn loader_sources(app_env: Option<String>) -> (r: Vec<ConfigSource>)
    ensures
        r@.map_values(|s: ConfigSource| s@) == loader_sources_of(env_name(match app_env {
            Some(s) => Some(s@),
            None => None::<Seq<char>>,
        })),
{
    let env = match app_env {
        Some(e) => e,
        None => String::from_str("dev"),
    };
    let env_file = String::from_str("config.").concat(env.as_str()).concat(".yaml");
    let mut r: Vec<ConfigSource> = Vec::new();
    r.push(ConfigSource::YamlFile(String::from_str("config.yaml")));
    r.push(ConfigSource::YamlFile(env_file));
    r.push(ConfigSource::Environment { prefix: String::from_str("APP__"), separator: String::from_str("__") });
    proof {
        assert(r@.map_values(|s: ConfigSource| s@) =~= loader_sources_of(env@));
    }
    r
}

/// The result of the plain loader for what merging gave: the reason of a
/// failed merge, or a merged value that passes validation, or
/// `Validation failed: ` followed by the text of its errors.
pub open spec fn loader_result<T: ConfigValidation>(extracted: Result<T, String>, r: Result<T, AppError>) -> bool {
    match extracted {
        Err(reason) => r matches Err(e) && e matches AppError::ConfigError(m) && m@ == reason@,
        Ok(config) => if config.validation_errors().len() == 0 {
            r == Ok::<T, AppError>(config)
        } else {
            r matches Err(e) && e matches AppError::ConfigError(m)
                && m@ == "Validation failed: "@ + render(config.validation_errors())
        },
    }
}

/// Finishes the plain loader: a failed merge is a configuration error with
/// its reason; a merged value is returned if it passes validation.
pub fn load_and_validate<T: ConfigValidation>(extracted: Result<T, String>) -> (r: Result<T, AppError>)
    ensures
        loader_result(extracted, r),
{
    match extracted {
        Err(reason) => Err(AppError::ConfigError(reason)),
        Ok(config) => match config.validate() {
            Ok(()) => Ok(config),
            Err(errors) => {
                let rendered = errors.display();
                Err(AppError::ConfigError(String::from_str("Validation failed: ").concat(rendered.as_str())))
            },
        },
    }
}

} // verus!
