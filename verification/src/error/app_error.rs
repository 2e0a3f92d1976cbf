//! The application-wide error of the configuration loader.
use vstd::prelude::*;
use vstd::string::*;
use crate::error::common_error::{http_status, CommonError};
use crate::error::error_logic::ErrorLogic;
use crate::error::grpc::{foreign_chain, push_foreign_chain, ForeignError, GrpcCode, RemoteStatus};

verus! {

/// Application-wide errors.
#[derive(Debug, Clone, PartialEq, Eq)]
pub enum AppError {
    ConfigError(String),
    InvalidInput(String),
    NotFound(String),
    InternalError(String),
    BackendError(String),
    GrpcError(RemoteStatus),
    IoError(ForeignError),
    Other(String),
}

/// The text an application error displays.
pub open spec fn app_error_text(e: AppError) -> Seq<char> {
    match e {
        AppError::ConfigError(m) => "Configuration error: "@ + m@,
        AppError::InvalidInput(m) => "Invalid input: "@ + m@,
        AppError::NotFound(m) => "Not found: "@ + m@,
        AppError::InternalError(m) => "Internal server error: "@ + m@,
        AppError::BackendError(m) => "Backend error: "@ + m@,
        AppError::GrpcError(s) => "gRPC error: "@ + s.error.message@,
        AppError::IoError(f) => "IO error: "@ + f.message@,
        AppError::Other(m) => "Other error: "@ + m@,
    }
}

/// The HTTP status of an application error.
pub open spec fn app_http_status(e: AppError) -> u16 {
    match e {
        AppError::InvalidInput(_) => 400,
        AppError::NotFound(_) => 404,
        AppError::BackendError(_) => 502,
        AppError::GrpcError(s) => match s.status.code {
            GrpcCode::InvalidArgument => 400,
            GrpcCode::NotFound => 404,
            GrpcCode::Unauthenticated => 401,
            GrpcCode::PermissionDenied => 403,
            _ => 500,
        },
        _ => 500,
    }
}

/// The HTTP status of each kind of application error: 400 for invalid
/// input, 404 for a missing resource, 502 for a failing backend, by its
/// code for a received gRPC status (400, 404, 401, 403, else 500), and 500
/// for every other kind.
pub proof fn lemma_app_http_status(e: AppError)
    ensures
        e is InvalidInput ==> app_http_status(e) == 400,
        e is NotFound ==> app_http_status(e) == 404,
        e is BackendError ==> app_http_status(e) == 502,
        e matches AppError::GrpcError(s) ==> app_http_status(e) == (if s.status.code == GrpcCode::InvalidArgument { 400u16 } else if s.status.code == GrpcCode::NotFound { 404u16 }
                else if s.status.code == GrpcCode::Unauthenticated { 401u16 } else if s.status.code == GrpcCode::PermissionDenied { 403u16 }
                else { 500u16 }),
        e is ConfigError || e is InternalError || e is IoError || e is Other ==> app_http_status(e) == 500,
{
}

fn prefixed(prefix: &str, text: &str) -> (r: String)
    ensures
        r@ == prefix@ + text@,
{
    String::from_str(prefix).concat(text)
}

impl AppError {
    /// The text this error displays.
    pub fn display(&self) -> (r: String)
        ensures
            r@ == app_error_text(*self),
    {
        match self {
            AppError::ConfigError(m) => prefixed("Configuration error: ", m.as_str()),
            AppError::InvalidInput(m) => prefixed("Invalid input: ", m.as_str()),
            AppError::NotFound(m) => prefixed("Not found: ", m.as_str()),
            AppError::InternalError(m) => prefixed("Internal server error: ", m.as_str()),
            AppError::BackendError(m) => prefixed("Backend error: ", m.as_str()),
            AppError::GrpcError(s) => prefixed("gRPC error: ", s.error.message.as_str()),
            AppError::IoError(f) => prefixed("IO error: ", f.message.as_str()),
            AppError::Other(m) => prefixed("Other error: ", m.as_str()),
        }
    }

    /// The HTTP status: 400 for invalid input, 404 for a missing resource,
    /// 502 for a failing backend; for a received gRPC status 400, 404, 401
    /// or 403 by its code; 500 otherwise.
    pub fn status_code(&self) -> (r: u16)
        ensures
            r == app_http_status(*self),
            *self is InvalidInput ==> r == 400,
            *self is NotFound ==> r == 404,
            *self is BackendError ==> r == 502,
            *self matches AppError::GrpcError(s) ==> r == (if s.status.code == GrpcCode::InvalidArgument { 400u16 } else if s.status.code == GrpcCode::NotFound { 404u16 }
                    else if s.status.code == GrpcCode::Unauthenticated { 401u16 } else if s.status.code == GrpcCode::PermissionDenied { 403u16 }
                    else { 500u16 }),
            *self is ConfigError || *self is InternalError || *self is IoError || *self is Other ==> r == 500,
    {
        proof {
            lemma_app_http_status(*self);
        }
        match self {
            AppError::InvalidInput(_) => 400,
            AppError::NotFound(_) => 404,
            AppError::ConfigError(_) => 500,
            AppError::InternalError(_) => 500,
            AppError::BackendError(_) => 502,
            AppError::GrpcError(status) => match status.status.code {
                GrpcCode::InvalidArgument => 400,
                GrpcCode::NotFound => 404,
                GrpcCode::Unauthenticated => 401,
                GrpcCode::PermissionDenied => 403,
                _ => 500,
            },
            AppError::IoError(_) => 500,
            AppError::Other(_) => 500,
        }
    }
}

/// The application-wide error and the shared error answer a received gRPC
/// status with the same HTTP status.
pub proof fn lemma_grpc_statuses_agree(s: RemoteStatus)
    ensures
        app_http_status(AppError::GrpcError(s)) == http_status(CommonError::GrpcError(s)),
{
}

impl ErrorLogic for AppError {
    open spec fn chain(&self) -> Seq<Seq<char>> {
        seq![app_error_text(*self)] + match *self {
            AppError::GrpcError(s) => foreign_chain(s.error),
            AppError::IoError(f) => foreign_chain(f),
            _ => Seq::empty(),
        }
    }

    fn report_chain(&self) -> (r: Vec<String>) {
        let mut chain: Vec<String> = Vec::new();
        chain.push(self.display());
        proof {
            assert(chain@.map_values(|s: String| s@) =~= seq![app_error_text(*self)]);
        }
        match self {
            AppError::GrpcError(s) => push_foreign_chain(&s.error, &mut chain),
            AppError::IoError(f) => push_foreign_chain(f, &mut chain),
            _ => {
                assert(chain@.map_values(|s: String| s@) =~= self.chain());
            },
        }
        chain
    }
}

} // verus!
