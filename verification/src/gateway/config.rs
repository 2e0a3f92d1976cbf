//! Configuration of the gateway.
use vstd::prelude::*;
use vstd::string::*;
use crate::configuration::config::BaseConfig;
use crate::configuration::logic::ServiceConfigLogic;
use crate::configuration::server::ServerConfig;
use crate::validation::{
    check_url, field_entry, lemma_nested_entry_names, lemma_two_entries_names, nested_entry,
    parses_as_url, record_field, url_rule, ConfigValidation, EntryView, ValidationErrors,
};

verus! {

/// Where a backend service is reached: its URL, the request timeout in
/// milliseconds and the number of retries.
#[derive(Debug, Clone, PartialEq, Eq)]
pub struct ServiceEndpoint {
    pub url: String,
    pub timeout_ms: u64,
    pub retries: u32,
}

impl Default for ServiceEndpoint {
    /// `http://localhost`, 5000 ms, 3 retries.
    fn default() -> (r: Self)
        ensures
            r.url@ == "http://localhost"@,
            r.timeout_ms == 5000,
            r.retries == 3,
    {
        ServiceEndpoint { url: String::from_str("http://localhost"), timeout_ms: 5000, retries: 3 }
    }
}

impl ConfigValidation for ServiceEndpoint {
    open spec fn validation_errors(&self) -> Seq<EntryView> {
        field_entry("url"@, url_rule(self.url@))
    }

    fn validate(&self) -> (r: Result<(), ValidationErrors>) {
        let mut errors = ValidationErrors::new();
        record_field(&mut errors, "url", check_url(self.url.as_str()));
        proof {
            assert(errors@ =~= self.validation_errors());
        }
        errors.into_result()
    }
}

/// The backend services the gateway talks to.
#[derive(Debug, Clone, PartialEq, Eq)]
pub struct ServicesConfig {
    pub greeter: ServiceEndpoint,
}

impl ConfigValidation for ServicesConfig {
    open spec fn validation_errors(&self) -> Seq<EntryView> {
        nested_entry("greeter"@, self.greeter.validation_errors())
    }

    fn validate(&self) -> (r: Result<(), ValidationErrors>) {
        let mut errors = ValidationErrors::new();
        errors.add_nested("greeter", self.greeter.validate());
        proof {
            assert(errors@ =~= self.validation_errors());
        }
        errors.into_result()
    }
}

/// The gateway's whole configuration: shared part, server, backends.
#[derive(Debug, Clone, PartialEq, Eq)]
pub struct GatewayConfig {
    pub base: BaseConfig,
    pub server: ServerConfig,
    pub services: ServicesConfig,
}

impl ConfigValidation for GatewayConfig {
    open spec fn validation_errors(&self) -> Seq<EntryView> {
        nested_entry("base"@, self.base.validation_errors())
            + nested_entry("server"@, self.server.validation_errors())
            + nested_entry("services"@, self.services.validation_errors())
    }

    fn validate(&self) -> (r: Result<(), ValidationErrors>) {
        proof {
            reveal_strlit("base");
            reveal_strlit("server");
            reveal_strlit("services");
        }
        let mut errors = ValidationErrors::new();
        errors.add_nested("base", self.base.validate());
        proof {
            assert("base"@[0] != "server"@[0]);
            lemma_nested_entry_names("base"@, self.base.validation_errors(), "server"@);
        }
        errors.add_nested("server", self.server.validate());
        proof {
            assert("base"@[0] != "services"@[0]);
            assert("server"@[5] != "services"@[5]);
            lemma_nested_entry_names("base"@, self.base.validation_errors(), "services"@);
            lemma_nested_entry_names("server"@, self.server.validation_errors(), "services"@);
            lemma_two_entries_names(
                Seq::<EntryView>::empty() + nested_entry("base"@, self.base.validation_errors()),
                nested_entry("server"@, self.server.validation_errors()),
                "services"@,
            );
        }
        errors.add_nested("services", self.services.validate());
        proof {
            assert(errors@ =~= self.validation_errors());
        }
        errors.into_result()
    }
}

impl ServiceConfigLogic for GatewayConfig {}

/// The gateway's configuration passes validation exactly when every part of
/// it does: service identity, logging, server and the greeter's endpoint.
pub proof fn lemma_gateway_validation_cascades(c: GatewayConfig)
    ensures
        c.validation_errors().len() == 0 <==> {
            &&& c.base.service.validation_errors().len() == 0
            &&& c.base.logging.validation_errors().len() == 0
            &&& c.server.validation_errors().len() == 0
            &&& c.services.greeter.validation_errors().len() == 0
        },
{
}

/// An endpoint passes validation exactly when its URL parses.
pub proof fn lemma_endpoint_valid(e: ServiceEndpoint)
    ensures
        e.validation_errors().len() == 0 <==> parses_as_url(e.url@),
{
}

} // verus!
