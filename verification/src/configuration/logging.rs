//! Logging level and output format.
use vstd::prelude::*;
use vstd::string::*;
use crate::text::{ascii_lowercase, is_ascii_text, lowercase, text_lowercase};
use crate::validation::{
    field_entry, lemma_field_entry_names, record_field, same_text, ConfigValidation, EntryView, ErrorParam, FieldError,
    FieldErrorView, ParamValue, ParamView, ValidationErrors,
};

verus! {

/// Output format of log records.
#[derive(Debug, Clone, Copy, PartialEq, Eq)]
pub enum LogFormat {
    Json,
    Pretty,
    Compact,
}

/// The name of a format as it is written in configuration files.
pub open spec fn format_name(f: LogFormat) -> Seq<char> {
    match f {
        LogFormat::Json => "json"@,
        LogFormat::Pretty => "pretty"@,
        LogFormat::Compact => "compact"@,
    }
}

impl LogFormat {
    /// The name of this format as it is written in configuration files.
    pub fn as_str(&self) -> (r: &'static str)
        ensures
            r@ == format_name(*self),
    {
        match self {
            LogFormat::Json => "json",
            LogFormat::Pretty => "pretty",
            LogFormat::Compact => "compact",
        }
    }
}

/// Level and format of the service's logs.
#[derive(Debug, Clone, PartialEq, Eq)]
pub struct LoggingConfig {
    pub level: String,
    pub format: LogFormat,
}

/// The accepted log levels.
pub open spec fn is_known_level(level: Seq<char>) -> bool {
    ||| level == "trace"@
    ||| level == "debug"@
    ||| level == "info"@
    ||| level == "warn"@
    ||| level == "error"@
}

/// The accepted format names.
pub open spec fn is_known_format(name: Seq<char>) -> bool {
    ||| name == "json"@
    ||| name == "pretty"@
    ||| name == "compact"@
}

/// Every format's name is already in lower case and known, so no format
/// fails its check.
pub proof fn lemma_format_names_pass(f: LogFormat)
    ensures
        text_lowercase(format_name(f)) == format_name(f),
        is_known_format(text_lowercase(format_name(f))),
{
    reveal_strlit("json");
    reveal_strlit("pretty");
    reveal_strlit("compact");
    let n = format_name(f);
    assert(is_ascii_text(n));
    assert(ascii_lowercase(n) =~= n);
}

/// The accepted levels are exactly `trace`, `debug`, `info`, `warn` and
/// `error`.
pub proof fn lemma_known_levels(level: Seq<char>)
    ensures
        is_known_level(level) <==> seq!["trace"@, "debug"@, "info"@, "warn"@, "error"@].contains(level),
{
    let s = seq!["trace"@, "debug"@, "info"@, "warn"@, "error"@];
    if is_known_level(level) {
        if level == "trace"@ { assert(s[0] == level); }
        else if level == "debug"@ { assert(s[1] == level); }
        else if level == "info"@ { assert(s[2] == level); }
        else if level == "warn"@ { assert(s[3] == level); }
        else { assert(s[4] == level); }
    }
}

/// A logging configuration passes validation exactly when its level is one
/// of `trace`, `debug`, `info`, `warn` and `error`: every format passes.
pub proof fn lemma_logging_config_valid(c: LoggingConfig)
    ensures
        c.validation_errors().len() == 0 <==> (c.level@ == "trace"@ || c.level@ == "debug"@ || c.level@ == "info"@
            || c.level@ == "warn"@ || c.level@ == "error"@),
{
    lemma_format_names_pass(c.format);
}

/// A rule failure with a code and nothing else.
pub open spec fn bare_error(code: Seq<char>) -> FieldErrorView {
    FieldErrorView { code, message: None, params: Seq::empty() }
}

fn bare(code: &str) -> (r: FieldError)
    ensures
        r@ == bare_error(code@),
{
    let e = FieldError { code: String::from_str(code), message: None, params: Vec::new() };
    assert(e@.params =~= Seq::<(Seq<char>, ParamView)>::empty());
    e
}

/// Checks that a level is one of `trace`, `debug`, `info`, `warn`, `error`.
pub fn validate_log_level(level: &str) -> (r: Result<(), FieldError>)
    ensures
        r is Ok <==> (level@ == "trace"@ || level@ == "debug"@ || level@ == "info"@ || level@ == "warn"@
            || level@ == "error"@),
        match r {
            Ok(()) => is_known_level(level@),
            Err(e) => !is_known_level(level@) && e@ == bare_error("invalid_log_level"@),
        },
{
    if same_text(level, "trace") || same_text(level, "debug") || same_text(level, "info")
        || same_text(level, "warn") || same_text(level, "error") {
        Ok(())
    } else {
        Err(bare("invalid_log_level"))
    }
}

/// Checks that the lower-case name of a format is `json`, `pretty` or
/// `compact`; every format passes.
pub fn validate_log_format(log_format: &LogFormat) -> (r: Result<(), FieldError>)
    ensures
        r is Ok,
        match r {
            Ok(()) => is_known_format(text_lowercase(format_name(*log_format))),
            Err(e) => !is_known_format(text_lowercase(format_name(*log_format)))
                && e@ == bare_error("invalid_log_format"@),
        },
{
    proof {
        lemma_format_names_pass(*log_format);
    }
    let name = lowercase(log_format.as_str());
    if same_text(name.as_str(), "json") || same_text(name.as_str(), "pretty") || same_text(name.as_str(), "compact") {
        Ok(())
    } else {
        Err(bare("invalid_log_format"))
    }
}

/// The errors of a field checked by a custom rule: the rule's error with the
/// field's message and the checked value added.
pub open spec fn custom_rule(failed: bool, code: Seq<char>, message: Seq<char>, value: Seq<char>) -> Seq<FieldErrorView> {
    if failed {
        seq![FieldErrorView { code, message: Some(message), params: seq![("value"@, ParamView::Text(value))] }]
    } else {
        Seq::empty()
    }
}

fn complete(outcome: Result<(), FieldError>, message: &str, value: &str) -> (r: Vec<FieldError>)
    ensures
        r@.map_values(|e: FieldError| e@) == match outcome {
            Ok(()) => Seq::<FieldErrorView>::empty(),
            Err(e) => seq![FieldErrorView {
                code: e@.code,
                message: Some(message@),
                params: e@.params.push(("value"@, ParamView::Text(value@))),
            }],
        },
{
    let mut errors: Vec<FieldError> = Vec::new();
    match outcome {
        Ok(()) => {},
        Err(e) => {
            let mut params = e.params;
            params.push(ErrorParam { name: String::from_str("value"), value: ParamValue::Text(String::from_str(value)) });
            let done = FieldError { code: e.code, message: Some(String::from_str(message)), params };
            proof {
                assert(done@.params =~= e@.params.push(("value"@, ParamView::Text(value@))));
            }
            errors.push(done);
        },
    }
    proof {
        assert(errors@.map_values(|e: FieldError| e@) =~= match outcome {
            Ok(()) => Seq::<FieldErrorView>::empty(),
            Err(e) => seq![FieldErrorView {
                code: e@.code,
                message: Some(message@),
                params: e@.params.push(("value"@, ParamView::Text(value@))),
            }],
        });
    }
    errors
}

impl ConfigValidation for LoggingConfig {
    open spec fn validation_errors(&self) -> Seq<EntryView> {
        field_entry("level"@, custom_rule(
            !is_known_level(self.level@),
            "invalid_log_level"@,
            "Invalid log level."@,
            self.level@,
        )) + field_entry("format"@, custom_rule(
            !is_known_format(text_lowercase(format_name(self.format))),
            "invalid_log_format"@,
            "Invalid log format."@,
            format_name(self.format),
        ))
    }

    fn validate(&self) -> (r: Result<(), ValidationErrors>) {
        proof {
            reveal_strlit("level");
            reveal_strlit("format");
        }
        let mut errors = ValidationErrors::new();
        let level = complete(validate_log_level(self.level.as_str()), "Invalid log level.", self.level.as_str());
        proof {
            assert(level@.map_values(|e: FieldError| e@) =~= custom_rule(
                !is_known_level(self.level@), "invalid_log_level"@, "Invalid log level."@, self.level@));
        }
        let ghost level_view = level@.map_values(|e: FieldError| e@);
        record_field(&mut errors, "level", level);
        proof {
            assert("level"@[0] != "format"@[0]);
            lemma_field_entry_names("level"@, level_view, "format"@);
        }
        let format = complete(validate_log_format(&self.format), "Invalid log format.", self.format.as_str());
        proof {
            assert(format@.map_values(|e: FieldError| e@) =~= custom_rule(
                !is_known_format(text_lowercase(format_name(self.format))),
                "invalid_log_format"@, "Invalid log format."@, format_name(self.format)));
        }
        record_field(&mut errors, "format", format);
        proof {
            assert(errors@ =~= self.validation_errors());
        }
        errors.into_result()
    }
}

/// How the log output layer is set up: the record style, whether source
/// files, line numbers and thread ids are written, and, where set, whether
/// targets are. Spans are reported when they close.
#[derive(Debug, Clone, Copy, PartialEq, Eq)]
pub struct LayerSettings {
    pub style: LogFormat,
    pub file: bool,
    pub line_number: bool,
    pub thread_ids: bool,
    pub target: Option<bool>,
}

impl LoggingConfig {
    /// The layer set up for this configuration's format: JSON records carry
    /// file, line, thread id and target; pretty records file, line and thread
    /// id; compact records none of them.
    pub fn layer_settings(&self) -> (r: LayerSettings)
        ensures
            r.style == self.format,
            r.file == (self.format != LogFormat::Compact),
            r.line_number == (self.format != LogFormat::Compact),
            r.thread_ids == (self.format != LogFormat::Compact),
            r.target == (if self.format == LogFormat::Json { Some(true) } else { None::<bool> }),
    {
        match self.format {
            LogFormat::Json => LayerSettings { style: LogFormat::Json, file: true, line_number: true, thread_ids: true, target: Some(true) },
            LogFormat::Pretty => LayerSettings { style: LogFormat::Pretty, file: true, line_number: true, thread_ids: true, target: None },
            LogFormat::Compact => LayerSettings { style: LogFormat::Compact, file: false, line_number: false, thread_ids: false, target: None },
        }
    }
}

} // verus!
