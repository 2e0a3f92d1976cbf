//! Errors of the gateway and the HTTP answer each one gets.
use vstd::prelude::*;
use vstd::string::*;
use crate::configuration::logic::{load_result, LoadOutcome, ServiceConfigLogic};
use crate::error::common_error::{common_error_text, http_status, CommonError};
use crate::error::error_logic::ErrorLogic;
use crate::gateway::config::GatewayConfig;
use vstd::std_specs::convert::FromSpecImpl;

verus! {

/// Errors of the gateway: a shared error, shown as it shows itself, or one
/// of the gateway's own.
#[derive(Debug, Clone, PartialEq, Eq)]
pub enum GatewayError {
    Common(CommonError),
    GatewaySpecific(String),
}

impl From<CommonError> for GatewayError {
    fn from(e: CommonError) -> (r: GatewayError) {
        GatewayError::Common(e)
    }
}

impl FromSpecImpl<CommonError> for GatewayError {
    open spec fn obeys_from_spec() -> bool {
        true
    }

    open spec fn from_spec(v: CommonError) -> GatewayError {
        GatewayError::Common(v)
    }
}

/// The text a gateway error displays.
pub open spec fn gateway_error_text(e: GatewayError) -> Seq<char> {
    match e {
        GatewayError::Common(inner) => common_error_text(inner),
        GatewayError::GatewaySpecific(m) => "Gateway specific logic error: "@ + m@,
    }
}

/// The HTTP status a gateway error is answered with.
pub open spec fn gateway_status(e: GatewayError) -> u16 {
    match e {
        GatewayError::Common(inner) => http_status(inner),
        GatewayError::GatewaySpecific(_) => 500,
    }
}

/// The answer to a failed request: the HTTP status, the error's text and
/// the texts of its chain of causes. Its JSON body is
/// `{"error": .., "details": [..], "code": ..}`.
#[derive(Debug, Clone, PartialEq, Eq)]
pub struct ErrorResponse {
    pub status: u16,
    pub error: String,
    pub details: Vec<String>,
}

impl GatewayError {
    /// The text this error displays.
    pub fn display(&self) -> (r: String)
        ensures
            r@ == gateway_error_text(*self),
    {
        match self {
            GatewayError::Common(inner) => inner.display(),
            GatewayError::GatewaySpecific(m) => String::from_str("Gateway specific logic error: ").concat(m.as_str()),
        }
    }

    /// The answer to a request that failed with this error: the status of a
    /// shared error, 500 for the gateway's own; the error's text; its chain
    /// of causes.
    pub fn error_response(&self) -> (r: ErrorResponse)
        ensures
            r.status == gateway_status(*self),
            r.error@ == gateway_error_text(*self),
            r.details@.map_values(|s: String| s@) == self.chain(),
            *self matches GatewayError::Common(inner) ==> r.status == http_status(inner)
                && r.error@ == common_error_text(inner),
            *self matches GatewayError::GatewaySpecific(m) ==> r.status == 500
                && r.error@ == "Gateway specific logic error: "@ + m@,
    {
        let status = match self {
            GatewayError::Common(inner) => inner.status_code(),
            GatewayError::GatewaySpecific(_) => 500,
        };
        ErrorResponse { status, error: self.display(), details: self.report_chain() }
    }
}

impl ErrorLogic for GatewayError {
    open spec fn chain(&self) -> Seq<Seq<char>> {
        match *self {
            GatewayError::Common(inner) => inner.chain(),
            GatewayError::GatewaySpecific(m) => seq![gateway_error_text(*self)],
        }
    }

    fn report_chain(&self) -> (r: Vec<String>) {
        match self {
            GatewayError::Common(inner) => inner.report_chain(),
            GatewayError::GatewaySpecific(_) => {
                let mut chain: Vec<String> = Vec::new();
                chain.push(self.display());
                proof {
                    assert(chain@.map_values(|s: String| s@) =~= self.chain());
                }
                chain
            },
        }
    }
}

/// A shared error inside a gateway error is transparent: same text, same
/// HTTP status, same chain of causes.
pub proof fn lemma_common_is_transparent(e: CommonError)
    ensures
        gateway_error_text(GatewayError::Common(e)) == common_error_text(e),
        gateway_status(GatewayError::Common(e)) == http_status(e),
        GatewayError::Common(e).chain() == e.chain(),
{
}

impl GatewayConfig {
    /// Finishes loading the gateway's configuration (see
    /// `ServiceConfigLogic::load_and_validate`); a failure is a shared error.
    pub fn load_from_path(outcome: LoadOutcome<GatewayConfig>) -> (r: Result<GatewayConfig, GatewayError>)
        ensures
            match r {
                Ok(c) => load_result(outcome, Ok(c)),
                Err(GatewayError::Common(e)) => load_result(outcome, Err(e)),
                Err(GatewayError::GatewaySpecific(_)) => false,
            },
    {
        match GatewayConfig::load_and_validate(outcome) {
            Ok(c) => Ok(c),
            Err(e) => Err(GatewayError::Common(e)),
        }
    }

}

} // verus!
