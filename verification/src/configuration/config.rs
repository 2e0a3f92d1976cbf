//! The configuration every service shares.
use vstd::prelude::*;
use vstd::string::*;
use crate::configuration::logging::LoggingConfig;
use crate::configuration::service::ServiceConfig;
use crate::configuration::logic::{load_result, LoadOutcome, ServiceConfigLogic};
use crate::error::common_error::CommonError;
use crate::validation::{lemma_nested_entry_names, nested_entry, ConfigValidation, EntryView, ValidationErrors};

verus! {

/// Shared configuration: service identity and logging.
#[derive(Debug, Clone, PartialEq, Eq)]
pub struct BaseConfig {
    pub service: ServiceConfig,
    pub logging: LoggingConfig,
}

impl ConfigValidation for BaseConfig {
    open spec fn validation_errors(&self) -> Seq<EntryView> {
        nested_entry("service"@, self.service.validation_errors())
            + nested_entry("logging"@, self.logging.validation_errors())
    }

    fn validate(&self) -> (r: Result<(), ValidationErrors>) {
        proof {
            reveal_strlit("service");
            reveal_strlit("logging");
        }
        let mut errors = ValidationErrors::new();
        errors.add_nested("service", self.service.validate());
        proof {
            assert("service"@[0] != "logging"@[0]);
            lemma_nested_entry_names("service"@, self.service.validation_errors(), "logging"@);
        }
        errors.add_nested("logging", self.logging.validate());
        proof {
            assert(errors@ =~= self.validation_errors());
        }
        errors.into_result()
    }
}

impl ServiceConfigLogic for BaseConfig {}

impl BaseConfig {
    /// Finishes loading the shared configuration (see
    /// `ServiceConfigLogic::load_and_validate`).
    pub fn load_from_path(outcome: LoadOutcome<BaseConfig>) -> (r: Result<BaseConfig, CommonError>)
        ensures
            load_result(outcome, r),
    {
        BaseConfig::load_and_validate(outcome)
    }
}

/// The shared configuration beside a service's own part.
#[derive(Debug, Clone, PartialEq, Eq)]
pub struct AppConfig<T> {
    pub base: BaseConfig,
    pub spec: T,
}

} // verus!
