//! The error type shared by every service.
use vstd::prelude::*;
use vstd::string::*;
use crate::error::error_logic::ErrorLogic;
use crate::error::grpc::{foreign_chain, is_bare, push_foreign_chain, ForeignError, GrpcCode, GrpcStatus, RemoteStatus};
use crate::text::{contains, contains_text};
use crate::validation::{render, ValidationErrors};

verus! {

/// Errors shared by every service. Errors raised by outside code are kept
/// by their texts; a gRPC status received from a remote service keeps its
/// code and message.
#[derive(Debug, Clone, PartialEq, Eq)]
pub enum CommonError {
    /// Loading or validating configuration failed (HTTP 500).
    ConfigError(String),
    /// A client sent invalid input (HTTP 400).
    InvalidInput(String),
    /// A requested resource does not exist (HTTP 404).
    NotFound(String),
    /// An unexpected internal failure (HTTP 500).
    InternalError(String),
    /// A socket address did not parse (HTTP 500).
    AddrParseError(ForeignError),
    /// Connecting to a backend failed (HTTP 502).
    TransportError(ForeignError),
    /// A remote service answered with a gRPC status (HTTP by its code).
    GrpcError(RemoteStatus),
    /// A URI did not parse (HTTP 500).
    UriError(ForeignError),
    /// Setting up the reflection service failed (HTTP 500).
    ReflectionError(ForeignError),
    /// A file system operation failed (HTTP 500).
    IoError(ForeignError),
    /// A required secret is missing (HTTP 500).
    MissingSecret(String),
    /// Anything else (HTTP 500).
    Other(String),
}

/// The text an error displays.
pub open spec fn common_error_text(e: CommonError) -> Seq<char> {
    match e {
        CommonError::ConfigError(m) => "Configuration error: "@ + m@,
        CommonError::InvalidInput(m) => "Invalid input: "@ + m@,
        CommonError::NotFound(m) => "Not found: "@ + m@,
        CommonError::InternalError(m) => "Internal server error: "@ + m@,
        CommonError::AddrParseError(f) => "Address parse error: "@ + f.message@,
        CommonError::TransportError(f) => "Transport/Connection error: "@ + f.message@,
        CommonError::GrpcError(s) => "gRPC status error: "@ + s.error.message@,
        CommonError::UriError(f) => "Invalid URI: "@ + f.message@,
        CommonError::ReflectionError(f) => "Reflection service error: "@ + f.message@,
        CommonError::IoError(f) => "IO error: "@ + f.message@,
        CommonError::MissingSecret(m) => "Missing mandatory secret: "@ + m@,
        CommonError::Other(m) => "Other error: "@ + m@,
    }
}

/// The HTTP status answered for a gRPC code received from a remote service:
/// 400 for `InvalidArgument`, 404 for `NotFound`, 401 for `Unauthenticated`,
/// 403 for `PermissionDenied`, and 500 for every other code.
pub open spec fn grpc_http_status(code: GrpcCode) -> u16 {
    match code {
        GrpcCode::InvalidArgument => 400,
        GrpcCode::NotFound => 404,
        GrpcCode::Unauthenticated => 401,
        GrpcCode::PermissionDenied => 403,
        _ => 500,
    }
}

/// The HTTP status answered for an error.
pub open spec fn http_status(e: CommonError) -> u16 {
    match e {
        CommonError::InvalidInput(_) => 400,
        CommonError::NotFound(_) => 404,
        CommonError::TransportError(_) => 502,
        CommonError::GrpcError(s) => grpc_http_status(s.status.code),
        _ => 500,
    }
}

/// The HTTP status of each kind of error: 400 for invalid input, 404 for a
/// missing resource, 502 for a failed connection, by its code for a
/// received gRPC status (400, 404, 401, 403, else 500), and 500 for every
/// other kind.
pub proof fn lemma_http_status(e: CommonError)
    ensures
        e is InvalidInput ==> http_status(e) == 400,
        e is NotFound ==> http_status(e) == 404,
        e is TransportError ==> http_status(e) == 502,
        e matches CommonError::GrpcError(s) ==> http_status(e) == (if s.status.code == GrpcCode::InvalidArgument { 400u16 } else if s.status.code == GrpcCode::NotFound { 404u16 }
                else if s.status.code == GrpcCode::Unauthenticated { 401u16 } else if s.status.code == GrpcCode::PermissionDenied { 403u16 }
                else { 500u16 }),
        e is ConfigError || e is InternalError || e is AddrParseError || e is UriError
            || e is ReflectionError || e is IoError || e is MissingSecret || e is Other ==> http_status(e) == 500,
{
}

/// The gRPC answer of each kind of error: invalid input and a missing
/// resource keep their message with `InvalidArgument` and `NotFound`; a
/// received status keeps its code and message; a missing secret fails a
/// precondition with `Missing secret: {name}`; every other error is
/// `Internal` with the error's text.
pub proof fn lemma_grpc_answer(e: CommonError)
    ensures
        e matches CommonError::InvalidInput(m) ==> grpc_answer(e) == (GrpcCode::InvalidArgument, m@),
        e matches CommonError::NotFound(m) ==> grpc_answer(e) == (GrpcCode::NotFound, m@),
        e matches CommonError::GrpcError(s) ==> grpc_answer(e) == (s.status.code, s.status.message@),
        e matches CommonError::MissingSecret(m) ==> grpc_answer(e) == (GrpcCode::FailedPrecondition, "Missing secret: "@ + m@),
        e is ConfigError || e is InternalError || e is AddrParseError || e is TransportError || e is UriError
            || e is ReflectionError || e is IoError || e is Other
            ==> grpc_answer(e) == (GrpcCode::Internal, common_error_text(e)),
{
}

/// The text of each kind of error: its prefix, then its message.
pub proof fn lemma_common_error_text(e: CommonError)
    ensures
        e matches CommonError::ConfigError(m) ==> common_error_text(e) == "Configuration error: "@ + m@,
        e matches CommonError::InvalidInput(m) ==> common_error_text(e) == "Invalid input: "@ + m@,
        e matches CommonError::NotFound(m) ==> common_error_text(e) == "Not found: "@ + m@,
        e matches CommonError::InternalError(m) ==> common_error_text(e) == "Internal server error: "@ + m@,
        e matches CommonError::TransportError(f) ==> common_error_text(e) == "Transport/Connection error: "@ + f.message@,
        e matches CommonError::GrpcError(s) ==> common_error_text(e) == "gRPC status error: "@ + s.error.message@,
        e matches CommonError::IoError(f) ==> common_error_text(e) == "IO error: "@ + f.message@,
        e matches CommonError::MissingSecret(m) ==> common_error_text(e) == "Missing mandatory secret: "@ + m@,
        e matches CommonError::Other(m) ==> common_error_text(e) == "Other error: "@ + m@,
{
}

/// The gRPC status answered for an error: its code and message.
pub open spec fn grpc_answer(e: CommonError) -> (GrpcCode, Seq<char>) {
    match e {
        CommonError::InvalidInput(m) => (GrpcCode::InvalidArgument, m@),
        CommonError::NotFound(m) => (GrpcCode::NotFound, m@),
        CommonError::GrpcError(s) => (s.status.code, s.status.message@),
        CommonError::MissingSecret(m) => (GrpcCode::FailedPrecondition, "Missing secret: "@ + m@),
        _ => (GrpcCode::Internal, common_error_text(e)),
    }
}

/// The causes of an error below its own text.
pub open spec fn common_error_sources(e: CommonError) -> Seq<Seq<char>> {
    match e {
        CommonError::AddrParseError(f) => foreign_chain(f),
        CommonError::TransportError(f) => foreign_chain(f),
        CommonError::GrpcError(s) => foreign_chain(s.error),
        CommonError::UriError(f) => foreign_chain(f),
        CommonError::ReflectionError(f) => foreign_chain(f),
        CommonError::IoError(f) => foreign_chain(f),
        _ => Seq::empty(),
    }
}

fn prefixed(prefix: &str, text: &str) -> (r: String)
    ensures
        r@ == prefix@ + text@,
{
    String::from_str(prefix).concat(text)
}

fn bare_status(code: GrpcCode, message: String) -> (r: GrpcStatus)
    ensures
        r.code == code,
        r.message == message,
        is_bare(r),
{
    GrpcStatus { code, message, details: Vec::new(), metadata: Vec::new() }
}

fn grpc_status_code(code: GrpcCode) -> (r: u16)
    ensures
        r == grpc_http_status(code),
{
    match code {
        GrpcCode::InvalidArgument => 400,
        GrpcCode::NotFound => 404,
        GrpcCode::Unauthenticated => 401,
        GrpcCode::PermissionDenied => 403,
        _ => 500,
    }
}

impl CommonError {
    /// The text this error displays, such as `Not found: User`.
    pub fn display(&self) -> (r: String)
        ensures
            r@ == common_error_text(*self),
    {
        match self {
            CommonError::ConfigError(m) => prefixed("Configuration error: ", m.as_str()),
            CommonError::InvalidInput(m) => prefixed("Invalid input: ", m.as_str()),
            CommonError::NotFound(m) => prefixed("Not found: ", m.as_str()),
            CommonError::InternalError(m) => prefixed("Internal server error: ", m.as_str()),
            CommonError::AddrParseError(f) => prefixed("Address parse error: ", f.message.as_str()),
            CommonError::TransportError(f) => prefixed("Transport/Connection error: ", f.message.as_str()),
            CommonError::GrpcError(s) => prefixed("gRPC status error: ", s.error.message.as_str()),
            CommonError::UriError(f) => prefixed("Invalid URI: ", f.message.as_str()),
            CommonError::ReflectionError(f) => prefixed("Reflection service error: ", f.message.as_str()),
            CommonError::IoError(f) => prefixed("IO error: ", f.message.as_str()),
            CommonError::MissingSecret(m) => prefixed("Missing mandatory secret: ", m.as_str()),
            CommonError::Other(m) => prefixed("Other error: ", m.as_str()),
        }
    }

    /// The HTTP status for this error: 400 for invalid input, 404 for a
    /// missing resource, 502 for a failed connection, for a received gRPC
    /// status 400, 404, 401 or 403 by its code, and 500 otherwise.
    pub fn status_code(&self) -> (r: u16)
        ensures
            r == http_status(*self),
            *self is InvalidInput ==> r == 400,
            *self is NotFound ==> r == 404,
            *self is TransportError ==> r == 502,
            *self matches CommonError::GrpcError(s) ==> r == (if s.status.code == GrpcCode::InvalidArgument { 400u16 } else if s.status.code == GrpcCode::NotFound { 404u16 }
                    else if s.status.code == GrpcCode::Unauthenticated { 401u16 } else if s.status.code == GrpcCode::PermissionDenied { 403u16 }
                    else { 500u16 }),
            *self is ConfigError || *self is InternalError || *self is AddrParseError || *self is UriError
                || *self is ReflectionError || *self is IoError || *self is MissingSecret || *self is Other ==> r == 500,
    {
        proof {
            lemma_http_status(*self);
        }
        match self {
            CommonError::InvalidInput(_) => 400,
            CommonError::NotFound(_) => 404,
            CommonError::ConfigError(_) => 500,
            CommonError::InternalError(_) => 500,
            CommonError::TransportError(_) => 502,
            CommonError::GrpcError(s) => grpc_status_code(s.status.code),
            CommonError::ReflectionError(_) => 500,
            CommonError::MissingSecret(_) => 500,
            _ => 500,
        }
    }

    /// Whether this error answers with the given HTTP status.
    pub fn has_status(&self, code: u16) -> (r: bool)
        ensures
            r == (http_status(*self) == code),
    {
        self.status_code() == code
    }

    /// Whether the text of this error contains `message`.
    pub fn contains(&self, message: &str) -> (r: bool)
        ensures
            r == contains_text(common_error_text(*self), message@),
    {
        let text = self.display();
        contains(text.as_str(), message)
    }

    /// The gRPC status answering this error: invalid input and missing
    /// resources keep their message, a received status is passed on, a
    /// missing secret fails a precondition, and anything else is internal,
    /// with the error's text as message.
    pub fn into_grpc_status(self) -> (r: GrpcStatus)
        ensures
            (r.code, r.message@) == grpc_answer(self),
            match self {
                CommonError::GrpcError(s) => r == s.status,
                _ => is_bare(r),
            },
    {
        match self {
            CommonError::InvalidInput(msg) => bare_status(GrpcCode::InvalidArgument, msg),
            CommonError::NotFound(msg) => bare_status(GrpcCode::NotFound, msg),
            CommonError::GrpcError(s) => s.status,
            CommonError::MissingSecret(msg) => bare_status(
                GrpcCode::FailedPrecondition,
                prefixed("Missing secret: ", msg.as_str()),
            ),
            other => {
                let text = other.display();
                bare_status(GrpcCode::Internal, text)
            },
        }
    }

    /// A configuration error reporting a failed validation.
    pub fn from_validation(err: ValidationErrors) -> (r: CommonError)
        ensures
            r matches CommonError::ConfigError(m) && m@ == "Validation failed: "@ + render(err@),
    {
        let text = err.display();
        CommonError::ConfigError(prefixed("Validation failed: ", text.as_str()))
    }
}

impl ErrorLogic for CommonError {
    open spec fn chain(&self) -> Seq<Seq<char>> {
        seq![common_error_text(*self)] + common_error_sources(*self)
    }

    fn report_chain(&self) -> (r: Vec<String>) {
        let mut chain: Vec<String> = Vec::new();
        chain.push(self.display());
        proof {
            assert(chain@.map_values(|s: String| s@) =~= seq![common_error_text(*self)]);
        }
        match self {
            CommonError::AddrParseError(f) => push_foreign_chain(f, &mut chain),
            CommonError::TransportError(f) => push_foreign_chain(f, &mut chain),
            CommonError::GrpcError(s) => push_foreign_chain(&s.error, &mut chain),
            CommonError::UriError(f) => push_foreign_chain(f, &mut chain),
            CommonError::ReflectionError(f) => push_foreign_chain(f, &mut chain),
            CommonError::IoError(f) => push_foreign_chain(f, &mut chain),
            _ => {
                assert(chain@.map_values(|s: String| s@) =~= self.chain());
            },
        }
        chain
    }
}

} // verus!
