//! Where a service listens.
use vstd::prelude::*;
use vstd::string::*;
use crate::validation::{
    check_length, check_range, field_entry, FieldErrorView, KindView, ParamView, lemma_field_entry_names, FieldError, length_rule, range_rule, record_field, ConfigValidation,
    EntryView, ValidationErrors,
};

verus! {

/// Bind address and port of a server: the host must be non-empty and the
/// port in `1..=65535`.
#[derive(Debug, Clone, PartialEq, Eq)]
pub struct ServerConfig {
    pub host: String,
    pub port: u16,
}

impl ConfigValidation for ServerConfig {
    open spec fn validation_errors(&self) -> Seq<EntryView> {
        field_entry("host"@, length_rule(Some("Host name cannot be empty"@), 1, self.host@))
            + field_entry("port"@, range_rule(
                Some("Port cannot be less than 1 or higher than 65.535"@),
                1,
                65535,
                self.port,
            ))
    }

    fn validate(&self) -> (r: Result<(), ValidationErrors>) {
        proof {
            reveal_strlit("host");
            reveal_strlit("port");
        }
        let mut errors = ValidationErrors::new();
        let host = check_length(Some("Host name cannot be empty"), 1, self.host.as_str());
        let ghost host_view = host@.map_values(|e: FieldError| e@);
        record_field(&mut errors, "host", host);
        proof {
            assert("host"@[0] != "port"@[0]);
            lemma_field_entry_names("host"@, host_view, "port"@);
        }
        record_field(
            &mut errors,
            "port",
            check_range(Some("Port cannot be less than 1 or higher than 65.535"), 1, 65535, self.port),
        );
        proof {
            assert(errors@ =~= self.validation_errors());
        }
        errors.into_result()
    }
}

/// A server's settings pass validation exactly when the host is not empty
/// and the port is at least 1; an empty host is reported first, under
/// `host`, with the message `Host name cannot be empty`, and port 0 under
/// `port` with `Port cannot be less than 1 or higher than 65.535`.
pub proof fn lemma_server_config_valid(c: ServerConfig)
    ensures
        c.validation_errors().len() == 0 <==> c.host@.len() > 0 && c.port >= 1,
        c.host@.len() == 0 ==> c.validation_errors()[0].field == "host"@
            && c.validation_errors()[0].kind == KindView::Field(seq![FieldErrorView {
                code: "length"@,
                message: Some("Host name cannot be empty"@),
                params: seq![("min"@, ParamView::Number(1)), ("value"@, ParamView::Text(c.host@))],
            }]),
        c.host@.len() > 0 && c.port == 0 ==> c.validation_errors() == seq![EntryView {
            field: "port"@,
            kind: KindView::Field(seq![FieldErrorView {
                code: "range"@,
                message: Some("Port cannot be less than 1 or higher than 65.535"@),
                params: seq![
                    ("min"@, ParamView::Number(1)),
                    ("max"@, ParamView::Number(65535)),
                    ("value"@, ParamView::Number(0)),
                ],
            }]),
        }],
{
}

} // verus!
