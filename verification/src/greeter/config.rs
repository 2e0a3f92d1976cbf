//! Configuration of the greeter service.
use vstd::prelude::*;
use vstd::string::*;
use crate::configuration::config::BaseConfig;
use crate::configuration::server::ServerConfig;
use crate::configuration::logic::{load_result, LoadOutcome, ServiceConfigLogic};
use crate::error::common_error::CommonError;
use crate::validation::{lemma_nested_entry_names, nested_entry, ConfigValidation, EntryView, ValidationErrors};

verus! {

/// The greeter's whole configuration: shared part and server.
#[derive(Debug, Clone, PartialEq, Eq)]
pub struct GreeterConfig {
    pub base: BaseConfig,
    pub server: ServerConfig,
}

impl ConfigValidation for GreeterConfig {
    open spec fn validation_errors(&self) -> Seq<EntryView> {
        nested_entry("base"@, self.base.validation_errors())
            + nested_entry("server"@, self.server.validation_errors())
    }

    fn validate(&self) -> (r: Result<(), ValidationErrors>) {
        proof {
            reveal_strlit("base");
            reveal_strlit("server");
        }
        let mut errors = ValidationErrors::new();
        errors.add_nested("base", self.base.validate());
        proof {
            assert("base"@[0] != "server"@[0]);
            lemma_nested_entry_names("base"@, self.base.validation_errors(), "server"@);
        }
        errors.add_nested("server", self.server.validate());
        proof {
            assert(errors@ =~= self.validation_errors());
        }
        errors.into_result()
    }
}

impl ServiceConfigLogic for GreeterConfig {}

impl GreeterConfig {
    /// Finishes loading the greeter's configuration (see
    /// `ServiceConfigLogic::load_and_validate`).
    pub fn load_from_path(outcome: LoadOutcome<GreeterConfig>) -> (r: Result<GreeterConfig, CommonError>)
        ensures
            load_result(outcome, r),
    {
        GreeterConfig::load_and_validate(outcome)
    }
}

} // verus!
