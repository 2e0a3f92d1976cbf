//! Identity of a service.
use vstd::prelude::*;
use vstd::string::*;
use crate::validation::{
    check_length, field_entry, FieldErrorView, KindView, ParamView, lemma_field_entry_names, FieldError, length_rule, record_field, ConfigValidation, EntryView,
    ValidationErrors,
};

verus! {

/// Name and version of a service; both must be non-empty.
#[derive(Debug, Clone, PartialEq, Eq)]
pub struct ServiceConfig {
    pub name: String,
    pub version: String,
}

impl ConfigValidation for ServiceConfig {
    open spec fn validation_errors(&self) -> Seq<EntryView> {
        field_entry("name"@, length_rule(Some("Service name cannot be empty"@), 1, self.name@))
            + field_entry("version"@, length_rule(Some("Service version cannot be empty"@), 1, self.version@))
    }

    fn validate(&self) -> (r: Result<(), ValidationErrors>) {
        proof {
            reveal_strlit("name");
            reveal_strlit("version");
        }
        let mut errors = ValidationErrors::new();
        let name = check_length(Some("Service name cannot be empty"), 1, self.name.as_str());
        let ghost name_view = name@.map_values(|e: FieldError| e@);
        record_field(&mut errors, "name", name);
        proof {
            assert("name"@[0] != "version"@[0]);
            lemma_field_entry_names("name"@, name_view, "version"@);
        }
        record_field(&mut errors, "version", check_length(Some("Service version cannot be empty"), 1, self.version.as_str()));
        proof {
            assert(errors@ =~= self.validation_errors());
        }
        errors.into_result()
    }
}

/// A service's identity passes validation exactly when its name and its
/// version are both non-empty.
pub proof fn lemma_service_config_valid(c: ServiceConfig)
    ensures
        c.validation_errors().len() == 0 <==> c.name@.len() > 0 && c.version@.len() > 0,
        c.name@.len() == 0 ==> c.validation_errors()[0].field == "name"@
            && c.validation_errors()[0].kind == KindView::Field(seq![FieldErrorView {
                code: "length"@,
                message: Some("Service name cannot be empty"@),
                params: seq![("min"@, ParamView::Number(1)), ("value"@, ParamView::Text(c.name@))],
            }]),
{
}

} // verus!
