//! The decisions taken while a service's configuration is loaded: which
//! sources are merged and in which order, where the files are looked for,
//! and what a failed load or validation answers.
//!
//! Sources are merged in this order, a later one overriding an earlier one:
//! `config.yaml`, `config.{APP_ENV}.yaml`, variables prefixed `APP__`,
//! variables prefixed with the service's own prefix, and the secret files.
use vstd::prelude::*;
use vstd::string::*;
use crate::error::common_error::CommonError;
use crate::text::{replace_char, replace_char_text, text_uppercase, uppercase};
use crate::validation::{
    render, ConfigValidation, EntryView, FieldErrorView, KindView, ValidationErrors,
};

verus! {

/// The environment loaded when `APP_ENV` is not set.
pub open spec fn default_env() -> Seq<char> {
    "dev"@
}

/// The environment named by `APP_ENV`, or `dev`.
pub open spec fn env_name(app_env: Option<Seq<char>>) -> Seq<char> {
    match app_env {
        Some(e) => e,
        None => default_env(),
    }
}

/// The environment-specific file: `config.{env}.yaml`.
pub open spec fn env_file_name(env: Seq<char>) -> Seq<char> {
    "config."@ + env + ".yaml"@
}

/// The service name used when the running program's name is unknown.
pub open spec fn service_name_of(stem: Option<Seq<char>>) -> Seq<char> {
    match stem {
        Some(s) => s,
        None => "APP"@,
    }
}

/// The variable prefix of a service: its name upper-cased, hyphens
/// replaced by underscores, then `__`.
pub open spec fn env_prefix_of(service_name: Seq<char>) -> Seq<char> {
    replace_char(text_uppercase(service_name), '-', '_') + "__"@
}

/// The directory of secret files: `APP_SECRETS_DIR`, or `/run/secrets`.
pub open spec fn secrets_dir_of(var: Option<Seq<char>>) -> Seq<char> {
    match var {
        Some(d) => d,
        None => "/run/secrets"@,
    }
}

/// The name of the running program without directory or extension, or `APP`.
pub fn get_service_name(stem: Option<String>) -> (r: String)
    ensures
        r@ == service_name_of(match stem {
            Some(s) => Some(s@),
            None => None::<Seq<char>>,
        }),
        stem is None ==> r@ == "APP"@,
        stem matches Some(s) ==> r@ == s@,
{
    match stem {
        Some(s) => s,
        None => String::from_str("APP"),
    }
}

/// The variable prefix of a service: `gateway` gives `GATEWAY__`, and
/// `greeter-service` gives `GREETER_SERVICE__`.
pub fn get_env_prefix(service_name: &str) -> (r: String)
    ensures
        r@ == env_prefix_of(service_name@),
{
    let upper = uppercase(service_name);
    replace_char_text(upper.as_str(), '-', '_').concat("__")
}

/// The directory of secret files: the value of `APP_SECRETS_DIR`, or `/run/secrets`.
pub fn get_secrets_dir(var: Option<String>) -> (r: String)
    ensures
        r@ == secrets_dir_of(match var {
            Some(s) => Some(s@),
            None => None::<Seq<char>>,
        }),
        var is None ==> r@ == "/run/secrets"@,
        var matches Some(d) ==> r@ == d@,
{
    match var {
        Some(d) => d,
        None => String::from_str("/run/secrets"),
    }
}

/// A source of configuration values.
#[derive(Debug, Clone, PartialEq, Eq)]
pub enum ConfigSource {
    /// A YAML file of the configuration directory, by name.
    YamlFile(String),
    /// Environment variables with a prefix; the separator splits nested keys.
    Environment { prefix: String, separator: String },
    /// The secret files.
    Secrets,
}

/// Model of a configuration source.
pub enum SourceView {
    YamlFile(Seq<char>),
    Environment(Seq<char>, Seq<char>),
    Secrets,
}

impl View for ConfigSource {
    type V = SourceView;

    open spec fn view(&self) -> SourceView {
        match self {
            ConfigSource::YamlFile(f) => SourceView::YamlFile(f@),
            ConfigSource::Environment { prefix, separator } => SourceView::Environment(prefix@, separator@),
            ConfigSource::Secrets => SourceView::Secrets,
        }
    }
}

/// A service's variable prefix never holds a hyphen.
pub proof fn lemma_env_prefix_has_no_hyphen(service_name: Seq<char>)
    ensures
        forall|i: int| 0 <= i < env_prefix_of(service_name).len() ==> #[trigger] env_prefix_of(service_name)[i] != '-',
{
    reveal_strlit("__");
    let head = replace_char(text_uppercase(service_name), '-', '_');
    assert forall|i: int| 0 <= i < env_prefix_of(service_name).len() implies #[trigger] env_prefix_of(service_name)[i] != '-' by {
        if i < head.len() {
            assert(env_prefix_of(service_name)[i] == head[i]);
        } else {
            assert(env_prefix_of(service_name)[i] == "__"@[i - head.len()]);
        }
    }
}

/// For an ASCII service name, the prefix is the name with lower-case letters
/// made upper-case and hyphens made underscores, followed by `__`.
pub proof fn lemma_env_prefix_of_ascii(service_name: Seq<char>)
    requires
        crate::text::is_ascii_text(service_name),
    ensures
        env_prefix_of(service_name).len() == service_name.len() + 2,
        env_prefix_of(service_name)[service_name.len() as int] == '_',
        env_prefix_of(service_name)[service_name.len() + 1int] == '_',
        forall|i: int| 0 <= i < service_name.len() ==> #[trigger] env_prefix_of(service_name)[i] == if service_name[i]
            == '-' {
            '_'
        } else if 'a' <= service_name[i] && service_name[i] <= 'z' {
            ((service_name[i] as u32) - 32) as char
        } else {
            service_name[i]
        },
{
    reveal_strlit("__");
    let head = replace_char(text_uppercase(service_name), '-', '_');
    assert forall|i: int| 0 <= i < service_name.len() implies #[trigger] env_prefix_of(service_name)[i] == if service_name[i]
        == '-' {
        '_'
    } else if 'a' <= service_name[i] && service_name[i] <= 'z' {
        ((service_name[i] as u32) - 32) as char
    } else {
        service_name[i]
    } by {
        assert(env_prefix_of(service_name)[i] == head[i]);
    }
}

/// What happens with the secrets directory.
#[derive(Debug, Clone, Copy, PartialEq, Eq, Structural)]
pub enum SecretsStep {
    /// The directory holds files: they are read and merged last.
    Load,
    /// The directory exists but holds no file: nothing is merged.
    EmptyDirectory,
    /// The directory does not exist: nothing is merged.
    NoDirectory,
}

/// The secrets step for a directory that exists or not and holds files or not.
pub open spec fn secrets_step_of(exists: bool, has_files: bool) -> SecretsStep {
    if !exists {
        SecretsStep::NoDirectory
    } else if has_files {
        SecretsStep::Load
    } else {
        SecretsStep::EmptyDirectory
    }
}

/// How a configuration is loaded: the environment, the files read, the
/// variable prefixes and the secrets directory.
#[derive(Debug, Clone, PartialEq, Eq)]
pub struct LoadPlan {
    pub env: String,
    pub base_config_file: String,
    pub env_config_file: String,
    pub service_prefix: String,
    pub secrets_dir: String,
}

/// The sources of a plan, lowest priority first: the base file, the
/// environment's file, `APP__` variables, the service's variables, and the
/// secrets when they are loaded.
pub open spec fn plan_sources(base_file: Seq<char>, env_file: Seq<char>, service_prefix: Seq<char>, step: SecretsStep) -> Seq<SourceView> {
    seq![
        SourceView::YamlFile(base_file),
        SourceView::YamlFile(env_file),
        SourceView::Environment("APP__"@, "__"@),
        SourceView::Environment(service_prefix, "__"@),
    ] + if step == SecretsStep::Load {
        seq![SourceView::Secrets]
    } else {
        Seq::empty()
    }
}

fn text(s: &str) -> (r: String)
    ensures
        r@ == s@,
{
    String::from_str(s)
}

impl LoadPlan {
    /// The plan for the environment named by `APP_ENV` (or `dev`), a service
    /// name, and the secrets directory named by `APP_SECRETS_DIR` (or
    /// `/run/secrets`).
    pub fn new(app_env: Option<String>, service_name: &str, secrets_dir_var: Option<String>) -> (r: LoadPlan)
        ensures
            r.env@ == env_name(match app_env {
                Some(s) => Some(s@),
                None => None::<Seq<char>>,
            }),
            r.base_config_file@ == "config.yaml"@,
            r.env_config_file@ == env_file_name(r.env@),
            app_env is None ==> r.env@ == "dev"@,
            app_env matches Some(e) ==> r.env@ == e@,
            r.env_config_file@ == "config."@ + r.env@ + ".yaml"@,
            r.service_prefix@ == env_prefix_of(service_name@),
            r.secrets_dir@ == secrets_dir_of(match secrets_dir_var {
                Some(s) => Some(s@),
                None => None::<Seq<char>>,
            }),
    {
        let env = match app_env {
            Some(e) => e,
            None => text("dev"),
        };
        let env_config_file = text("config.").concat(env.as_str()).concat(".yaml");
        LoadPlan {
            env,
            base_config_file: text("config.yaml"),
            env_config_file,
            service_prefix: get_env_prefix(service_name),
            secrets_dir: get_secrets_dir(secrets_dir_var),
        }
    }

    /// What happens with the secrets directory: files are loaded only from an
    /// existing directory that holds files.
    pub fn secrets_step(&self, exists: bool, has_files: bool) -> (r: SecretsStep)
        ensures
            r == secrets_step_of(exists, has_files),
    {
        if !exists {
            SecretsStep::NoDirectory
        } else if has_files {
            SecretsStep::Load
        } else {
            SecretsStep::EmptyDirectory
        }
    }

    /// The sources to merge, lowest priority first: the base file, the
    /// environment file, `APP__` variables, the service's variables, and the
    /// secrets when they are loaded. Nested keys are split at `__`.
    pub fn sources(&self, step: SecretsStep) -> (r: Vec<ConfigSource>)
        ensures
            r@.map_values(|s: ConfigSource| s@) == plan_sources(
                self.base_config_file@,
                self.env_config_file@,
                self.service_prefix@,
                step,
            ),
            r@.len() == (if step == SecretsStep::Load { 5int } else { 4int }),
            r@[0]@ == SourceView::YamlFile(self.base_config_file@),
            r@[1]@ == SourceView::YamlFile(self.env_config_file@),
            r@[2]@ == SourceView::Environment("APP__"@, "__"@),
            r@[3]@ == SourceView::Environment(self.service_prefix@, "__"@),
            step == SecretsStep::Load ==> r@[4]@ == SourceView::Secrets,
    {
        let mut r: Vec<ConfigSource> = Vec::new();
        r.push(ConfigSource::YamlFile(self.base_config_file.clone()));
        r.push(ConfigSource::YamlFile(self.env_config_file.clone()));
        r.push(ConfigSource::Environment { prefix: text("APP__"), separator: text("__") });
        r.push(ConfigSource::Environment {
            prefix: self.service_prefix.clone(),
            separator: text("__"),
        });
        if step == SecretsStep::Load {
            r.push(ConfigSource::Secrets);
        }
        proof {
            assert(r@.map_values(|s: ConfigSource| s@) =~= plan_sources(
                self.base_config_file@,
                self.env_config_file@,
                self.service_prefix@,
                step,
            ));
        }
        r
    }
}

/// The secrets are merged only when their directory exists and holds files,
/// and then after every other source; the other sources come in the same
/// order either way.
pub proof fn lemma_secrets_merged_last(base_file: Seq<char>, env_file: Seq<char>, service_prefix: Seq<char>, step: SecretsStep)
    ensures
        plan_sources(base_file, env_file, service_prefix, step).contains(SourceView::Secrets) <==> step == SecretsStep::Load,
        step == SecretsStep::Load ==> plan_sources(base_file, env_file, service_prefix, step).last() == SourceView::Secrets,
        plan_sources(base_file, env_file, service_prefix, step).subrange(0, 4)
            == plan_sources(base_file, env_file, service_prefix, SecretsStep::NoDirectory),
{
    let s = plan_sources(base_file, env_file, service_prefix, step);
    assert(s.subrange(0, 4) =~= plan_sources(base_file, env_file, service_prefix, SecretsStep::NoDirectory));
    if step == SecretsStep::Load {
        assert(s[4] == SourceView::Secrets);
    } else {
        assert(s =~= s.subrange(0, 4));
        assert forall|i: int| 0 <= i < s.len() implies #[trigger] s[i] != SourceView::Secrets by {}
    }
}

/// Where the configuration directory was found, below the working directory.
#[derive(Debug, Clone, Copy, PartialEq, Eq, Structural)]
pub enum BaseDirChoice {
    /// The working directory itself.
    CurrentDir,
    /// `{service}` below it.
    ServiceDir,
    /// `services/{service}` below it.
    ServicesDir,
}

/// The first directory holding `config.yaml`, in the order working directory,
/// `{service}`, `services/{service}`; the working directory when none does.
pub open spec fn base_dir_of(in_current: bool, in_service_dir: bool, in_services_dir: bool) -> BaseDirChoice {
    if in_current {
        BaseDirChoice::CurrentDir
    } else if in_service_dir {
        BaseDirChoice::ServiceDir
    } else if in_services_dir {
        BaseDirChoice::ServicesDir
    } else {
        BaseDirChoice::CurrentDir
    }
}

/// The directory chosen is the first, in the order working directory,
/// `{service}`, `services/{service}`, that holds `config.yaml`: a directory
/// is chosen only if it holds the file or none does, and no earlier one
/// holds it; when none does, the working directory is chosen.
pub proof fn lemma_base_dir_first_found(in_current: bool, in_service_dir: bool, in_services_dir: bool)
    ensures
        base_dir_of(in_current, in_service_dir, in_services_dir) == BaseDirChoice::ServiceDir
            <==> !in_current && in_service_dir,
        base_dir_of(in_current, in_service_dir, in_services_dir) == BaseDirChoice::ServicesDir
            <==> !in_current && !in_service_dir && in_services_dir,
        base_dir_of(in_current, in_service_dir, in_services_dir) == BaseDirChoice::CurrentDir
            <==> in_current || (!in_service_dir && !in_services_dir),
{
}

/// Chooses the configuration directory from whether `config.yaml` exists in
/// the working directory, in `{service}` and in `services/{service}`.
pub fn auto_base_dir(in_current: bool, in_service_dir: bool, in_services_dir: bool) -> (r: BaseDirChoice)
    ensures
        r == base_dir_of(in_current, in_service_dir, in_services_dir),
        in_current ==> r == BaseDirChoice::CurrentDir,
        !in_current && in_service_dir ==> r == BaseDirChoice::ServiceDir,
        !in_current && !in_service_dir && in_services_dir ==> r == BaseDirChoice::ServicesDir,
        !in_current && !in_service_dir && !in_services_dir ==> r == BaseDirChoice::CurrentDir,
{
    proof {
        lemma_base_dir_first_found(in_current, in_service_dir, in_services_dir);
    }
    if in_current {
        BaseDirChoice::CurrentDir
    } else if in_service_dir {
        BaseDirChoice::ServiceDir
    } else if in_services_dir {
        BaseDirChoice::ServicesDir
    } else {
        BaseDirChoice::CurrentDir
    }
}

/// The path components below the working directory for a choice.
pub open spec fn base_dir_components(choice: BaseDirChoice, service_name: Seq<char>) -> Seq<Seq<char>> {
    match choice {
        BaseDirChoice::CurrentDir => Seq::empty(),
        BaseDirChoice::ServiceDir => seq![service_name],
        BaseDirChoice::ServicesDir => seq!["services"@, service_name],
    }
}

impl BaseDirChoice {
    /// The path components of this choice below the working directory.
    pub fn components(&self, service_name: &str) -> (r: Vec<String>)
        ensures
            r@.map_values(|s: String| s@) == base_dir_components(*self, service_name@),
    {
        let mut r: Vec<String> = Vec::new();
        match self {
            BaseDirChoice::CurrentDir => {},
            BaseDirChoice::ServiceDir => {
                r.push(text(service_name));
            },
            BaseDirChoice::ServicesDir => {
                r.push(text("services"));
                r.push(text(service_name));
            },
        }
        proof {
            assert(r@.map_values(|s: String| s@) =~= base_dir_components(*self, service_name@));
        }
        r
    }
}

/// The error a failed validation answers, before its generic form.
pub enum FailureView {
    MissingSecret(Seq<char>),
    Config(Seq<char>),
}

/// The answer one field error gives, if it decides: a `missing_secret` code
/// names the missing secret, a `required` code a missing field, and a
/// message a failed field.
pub open spec fn decide_error(field: Seq<char>, e: FieldErrorView) -> Option<FailureView> {
    if e.code == "missing_secret"@ {
        Some(FailureView::MissingSecret(field))
    } else if e.code == "required"@ {
        Some(FailureView::Config("Required field '"@ + field + "' is missing in configuration"@))
    } else {
        match e.message {
            Some(m) => Some(FailureView::Config("Validation failed for '"@ + field + "': "@ + m)),
            None => None,
        }
    }
}

/// The answer of the first deciding error of a field.
pub open spec fn decide_errors(field: Seq<char>, errors: Seq<FieldErrorView>) -> Option<FailureView>
    decreases errors.len(),
{
    if errors.len() == 0 {
        None
    } else {
        match decide_error(field, errors[0]) {
            Some(d) => Some(d),
            None => decide_errors(field, errors.subrange(1, errors.len() as int)),
        }
    }
}

/// The answer of the first deciding error among the top-level fields;
/// nested structures are not searched.
pub open spec fn decide_entries(entries: Seq<EntryView>) -> Option<FailureView>
    decreases entries.len(),
{
    if entries.len() == 0 {
        None
    } else {
        let first = match entries[0].kind {
            KindView::Field(errors) => decide_errors(entries[0].field, errors),
            KindView::Struct(_) => None,
        };
        match first {
            Some(d) => Some(d),
            None => decide_entries(entries.subrange(1, entries.len() as int)),
        }
    }
}

/// The answer of a failed validation: the first deciding top-level error,
/// or `Validation failed: ` followed by the text of all errors.
pub open spec fn validation_failure_of(entries: Seq<EntryView>) -> FailureView {
    match decide_entries(entries) {
        Some(d) => d,
        None => FailureView::Config("Validation failed: "@ + render(entries)),
    }
}

/// How a failed validation is answered, said of its entries: when the first
/// top-level field's first error has code `missing_secret`, the secret is
/// reported missing; with code `required`, the field is reported missing;
/// with another code and a message, the field and the message are
/// reported; and when no top-level field error has either code or a
/// message, all errors are reported after `Validation failed: `.
pub proof fn lemma_validation_failure(entries: Seq<EntryView>)
    ensures
        entries.len() > 0 && entries[0].kind is Field && entries[0].kind->Field_0.len() > 0
            && entries[0].kind->Field_0[0].code == "missing_secret"@
            ==> validation_failure_of(entries) == FailureView::MissingSecret(entries[0].field),
        entries.len() > 0 && entries[0].kind is Field && entries[0].kind->Field_0.len() > 0
            && entries[0].kind->Field_0[0].code == "required"@
            ==> validation_failure_of(entries) == FailureView::Config(
                "Required field '"@ + entries[0].field + "' is missing in configuration"@,
            ),
        entries.len() > 0 && entries[0].kind is Field && entries[0].kind->Field_0.len() > 0
            && entries[0].kind->Field_0[0].code != "missing_secret"@
            && entries[0].kind->Field_0[0].code != "required"@
            && entries[0].kind->Field_0[0].message is Some
            ==> validation_failure_of(entries) == FailureView::Config(
                "Validation failed for '"@ + entries[0].field + "': "@ + entries[0].kind->Field_0[0].message->0,
            ),
        (forall|i: int, j: int|
            0 <= i < entries.len() && entries[i].kind is Field && 0 <= j < entries[i].kind->Field_0.len()
                ==> (#[trigger] entries[i].kind->Field_0[j]).code != "missing_secret"@
                && entries[i].kind->Field_0[j].code != "required"@ && entries[i].kind->Field_0[j].message is None)
            ==> validation_failure_of(entries) == FailureView::Config("Validation failed: "@ + render(entries)),
{
    reveal_strlit("required");
    reveal_strlit("missing_secret");
    assert("required"@ != "missing_secret"@) by {
        assert("required"@[0] != "missing_secret"@[0]);
    }
    if forall|i: int, j: int|
        0 <= i < entries.len() && entries[i].kind is Field && 0 <= j < entries[i].kind->Field_0.len()
            ==> (#[trigger] entries[i].kind->Field_0[j]).code != "missing_secret"@
            && entries[i].kind->Field_0[j].code != "required"@ && entries[i].kind->Field_0[j].message is None {
        lemma_undecided(entries);
    }
}

proof fn lemma_undecided_field(field: Seq<char>, errors: Seq<FieldErrorView>)
    requires
        forall|j: int| 0 <= j < errors.len() ==> (#[trigger] errors[j]).code != "missing_secret"@
            && errors[j].code != "required"@ && errors[j].message is None,
    ensures
        decide_errors(field, errors) is None,
    decreases errors.len(),
{
    if errors.len() > 0 {
        let rest = errors.subrange(1, errors.len() as int);
        assert forall|j: int| 0 <= j < rest.len() implies (#[trigger] rest[j]).code != "missing_secret"@
            && rest[j].code != "required"@ && rest[j].message is None by {
            assert(rest[j] == errors[j + 1]);
        }
        assert(errors[0].code != "missing_secret"@);
        lemma_undecided_field(field, rest);
    }
}

proof fn lemma_undecided(entries: Seq<EntryView>)
    requires
        forall|i: int, j: int|
            0 <= i < entries.len() && entries[i].kind is Field && 0 <= j < entries[i].kind->Field_0.len()
                ==> (#[trigger] entries[i].kind->Field_0[j]).code != "missing_secret"@
                && entries[i].kind->Field_0[j].code != "required"@ && entries[i].kind->Field_0[j].message is None,
    ensures
        decide_entries(entries) is None,
    decreases entries.len(),
{
    if entries.len() > 0 {
        let rest = entries.subrange(1, entries.len() as int);
        assert forall|i: int, j: int|
            0 <= i < rest.len() && rest[i].kind is Field && 0 <= j < rest[i].kind->Field_0.len()
                implies (#[trigger] rest[i].kind->Field_0[j]).code != "missing_secret"@
                && rest[i].kind->Field_0[j].code != "required"@ && rest[i].kind->Field_0[j].message is None by {
            assert(rest[i] == entries[i + 1]);
            assert(entries[i + 1].kind->Field_0[j] == rest[i].kind->Field_0[j]);
        }
        lemma_undecided(rest);
        match entries[0].kind {
            KindView::Field(errors) => {
                assert forall|j: int| 0 <= j < errors.len() implies (#[trigger] errors[j]).code != "missing_secret"@
                    && errors[j].code != "required"@ && errors[j].message is None by {
                    assert(entries[0].kind->Field_0[j] == errors[j]);
                }
                lemma_undecided_field(entries[0].field, errors);
            },
            KindView::Struct(_) => {},
        }
    }
}

/// The error is the one a failure view describes.
pub open spec fn is_failure(e: CommonError, f: FailureView) -> bool {
    match f {
        FailureView::MissingSecret(name) => e matches CommonError::MissingSecret(m) && m@ == name,
        FailureView::Config(text) => e matches CommonError::ConfigError(m) && m@ == text,
    }
}

fn decide_field(field: &str, errors: &Vec<crate::validation::FieldError>) -> (r: Option<CommonError>)
    ensures
        match decide_errors(field@, errors@.map_values(|e: crate::validation::FieldError| e@)) {
            Some(d) => r matches Some(e) && is_failure(e, d),
            None => r is None,
        },
{
    let ghost views = errors@.map_values(|e: crate::validation::FieldError| e@);
    proof {
        assert(views.subrange(0, views.len() as int) =~= views);
    }
    let mut i: usize = 0;
    while i < errors.len()
        invariant
            i <= errors.len(),
            views == errors@.map_values(|e: crate::validation::FieldError| e@),
            decide_errors(field@, views) == decide_errors(field@, views.subrange(i as int, views.len() as int)),
        decreases errors.len() - i,
    {
        let e = &errors[i];
        let ghost rest = views.subrange(i as int, views.len() as int);
        proof {
            assert(rest[0] == e@);
            assert(rest.subrange(1, rest.len() as int) =~= views.subrange(i + 1, views.len() as int));
        }
        if same_code(e.code.as_str(), "missing_secret") {
            return Some(CommonError::MissingSecret(text(field)));
        }
        if same_code(e.code.as_str(), "required") {
            let m = text("Required field '").concat(field).concat("' is missing in configuration");
            return Some(CommonError::ConfigError(m));
        }
        match &e.message {
            Some(msg) => {
                let m = text("Validation failed for '").concat(field).concat("': ").concat(msg.as_str());
                return Some(CommonError::ConfigError(m));
            },
            None => {},
        }
        i = i + 1;
    }
    proof {
        assert(views.subrange(i as int, views.len() as int).len() == 0);
    }
    None
}

fn same_code(a: &str, b: &str) -> (r: bool)
    ensures
        r == (a@ == b@),
{
    crate::validation::same_text(a, b)
}

/// The error a failed validation answers: the first top-level field error
/// (in field order, then error order) that names a missing secret, a
/// missing required field, or carries a message decides; otherwise a
/// configuration error `Validation failed: ` followed by the text of all errors.
pub fn validation_failure(errors: &ValidationErrors) -> (r: CommonError)
    ensures
        is_failure(r, validation_failure_of(errors@)),
{
    proof {
        crate::validation::lemma_entries_view(errors.entries@);
    }
    let ghost views = errors@;
    proof {
        assert(views.subrange(0, views.len() as int) =~= views);
    }
    let mut i: usize = 0;
    while i < errors.entries.len()
        invariant
            i <= errors.entries.len(),
            views == errors@,
            views.len() == errors.entries@.len(),
            forall|j: int| 0 <= j < errors.entries@.len() ==> #[trigger] views[j] == errors.entries@[j]@,
            decide_entries(views) == decide_entries(views.subrange(i as int, views.len() as int)),
        decreases errors.entries.len() - i,
    {
        let entry = &errors.entries[i];
        let ghost rest = views.subrange(i as int, views.len() as int);
        proof {
            assert(rest[0] == entry@);
            assert(rest.subrange(1, rest.len() as int) =~= views.subrange(i + 1, views.len() as int));
        }
        match &entry.kind {
            crate::validation::ErrorsKind::Field(es) => {
                match decide_field(entry.field.as_str(), es) {
                    Some(e) => {
                        return e;
                    },
                    None => {},
                }
            },
            crate::validation::ErrorsKind::Struct(_) => {},
        }
        i = i + 1;
    }
    proof {
        assert(views.subrange(i as int, views.len() as int).len() == 0);
    }
    let rendered = errors.display();
    CommonError::ConfigError(text("Validation failed: ").concat(rendered.as_str()))
}

/// What loading found before validation.
pub enum LoadOutcome<T> {
    /// `config.yaml` does not exist; its location as displayed and the
    /// working directory as reported.
    MissingBaseFile { location: String, current_dir: String },
    /// Merging the sources into a value failed, with the reason.
    ParseFailed(String),
    /// The sources merged into a value.
    Parsed(T),
}

/// The message for a missing base file.
pub open spec fn missing_file_text(location: Seq<char>, current_dir: Seq<char>) -> Seq<char> {
    "Config file not found at: "@ + location + ". Current directory: "@ + current_dir
}

/// The message for sources that did not merge into a value.
pub open spec fn parse_failure_text(reason: Seq<char>) -> Seq<char> {
    "Failed to parse configuration: "@ + reason + ". Check YAML syntax and environment variable formats."@
}

/// The result of loading: a missing base file or a failed merge is a
/// configuration error; a merged value is returned when it passes its
/// validation and answered as its failure otherwise.
pub open spec fn load_result<T: ConfigValidation>(outcome: LoadOutcome<T>, r: Result<T, CommonError>) -> bool {
    match outcome {
        LoadOutcome::MissingBaseFile { location, current_dir } =>
            r matches Err(e) && e matches CommonError::ConfigError(m)
                && m@ == missing_file_text(location@, current_dir@),
        LoadOutcome::ParseFailed(reason) =>
            r matches Err(e) && e matches CommonError::ConfigError(m) && m@ == parse_failure_text(reason@),
        LoadOutcome::Parsed(config) => if config.validation_errors().len() == 0 {
            r == Ok::<T, CommonError>(config)
        } else {
            r matches Err(e) && is_failure(e, validation_failure_of(config.validation_errors()))
        },
    }
}

/// A configuration that loading returns is the merged value itself, and it
/// breaks none of its rules.
pub proof fn lemma_loaded_config_is_valid<T: ConfigValidation>(outcome: LoadOutcome<T>, config: T)
    requires
        load_result(outcome, Ok(config)),
    ensures
        outcome == LoadOutcome::Parsed(config),
        config.validation_errors().len() == 0,
{
}

/// What loading answers for each outcome: a missing base file and a failed
/// merge are configuration errors naming the file and the working
/// directory, or the reason; a merged value is returned exactly when it
/// breaks no rule.
pub proof fn lemma_load_outcomes<T: ConfigValidation>(outcome: LoadOutcome<T>, r: Result<T, CommonError>)
    requires
        load_result(outcome, r),
    ensures
        outcome matches LoadOutcome::MissingBaseFile { location, current_dir } ==> (r matches Err(
            CommonError::ConfigError(m),
        ) && m@ == "Config file not found at: "@ + location@ + ". Current directory: "@ + current_dir@),
        outcome matches LoadOutcome::ParseFailed(reason) ==> (r matches Err(CommonError::ConfigError(m)) && m@
            == "Failed to parse configuration: "@ + reason@ + ". Check YAML syntax and environment variable formats."@),
        match outcome {
            LoadOutcome::Parsed(c) => (r is Ok <==> c.validation_errors().len() == 0)
                && (c.validation_errors().len() == 0 ==> r == Ok::<T, CommonError>(c)),
            _ => r is Err,
        },
        r matches Ok(c) ==> outcome == LoadOutcome::Parsed(c),
{
}

/// The loading logic every service configuration shares.
pub trait ServiceConfigLogic: ConfigValidation + Sized {
    /// Finishes loading a configuration: reports a missing base file or a
    /// failed merge, and otherwise validates the merged value, so that a
    /// configuration that breaks a rule is never returned.
    fn load_and_validate(outcome: LoadOutcome<Self>) -> (r: Result<Self, CommonError>)
        ensures
            load_result(outcome, r),
    {
        match outcome {
            LoadOutcome::MissingBaseFile { location, current_dir } => {
                let m = text("Config file not found at: ").concat(location.as_str()).concat(
                    ". Current directory: ",
                ).concat(current_dir.as_str());
                Err(CommonError::ConfigError(m))
            },
            LoadOutcome::ParseFailed(reason) => {
                let m = text("Failed to parse configuration: ").concat(reason.as_str()).concat(
                    ". Check YAML syntax and environment variable formats.",
                );
                Err(CommonError::ConfigError(m))
            },
            LoadOutcome::Parsed(config) => {
                match config.validate() {
                    Ok(()) => Ok(config),
                    Err(errors) => Err(validation_failure(&errors)),
                }
            },
        }
    }
}

} // verus!
