use common::error::common_error::CommonError;
use common::error::app_error::AppError;
use common::error::error_logic::ErrorLogic;
use common::error::grpc::{ForeignError, GrpcCode, GrpcStatus, RemoteStatus};
use common::gateway::error::GatewayError;
use common::validation::{ErrorsKind, ErrorEntry, FieldError, ValidationErrors};

fn remote(status: GrpcStatus) -> RemoteStatus {
    let text = format!("status: {:?}, message: {:?}", status.code, status.message);
    RemoteStatus { status, error: ForeignError::new(&text) }
}

#[test]
fn error_test_status_code_mapping() {
    assert_eq!(CommonError::InvalidInput("test".to_string()).status_code(), 400);
    assert_eq!(CommonError::NotFound("test".to_string()).status_code(), 404);
    assert_eq!(CommonError::ConfigError("test".to_string()).status_code(), 500);
}

#[test]
fn common_error_test_status_code_mapping() {
    assert_eq!(CommonError::InvalidInput("test".to_string()).status_code(), 400);
    assert_eq!(CommonError::NotFound("test".to_string()).status_code(), 404);
    assert_eq!(CommonError::ConfigError("test".to_string()).status_code(), 500);
}

#[test]
fn error_test_grpc_status_mapping() {
    let invalid_arg = CommonError::GrpcError(remote(GrpcStatus::invalid_argument("bad input")));
    assert_eq!(invalid_arg.status_code(), 400);

    let not_found = CommonError::GrpcError(remote(GrpcStatus::not_found("not found")));
    assert_eq!(not_found.status_code(), 404);
}

#[test]
fn common_error_test_grpc_status_mapping() {
    let invalid_arg = CommonError::GrpcError(remote(GrpcStatus::invalid_argument("bad input")));
    assert_eq!(invalid_arg.status_code(), 400);

    let not_found = CommonError::GrpcError(remote(GrpcStatus::not_found("not found")));
    assert_eq!(not_found.status_code(), 404);
}

#[test]
fn error_test_contains() {
    let err = CommonError::ConfigError("Missing database_url".to_string());
    assert!(err.contains("database_url"));
    assert!(!err.contains("port"));
}

#[test]
fn common_error_test_contains() {
    let err = CommonError::ConfigError("Missing database_url".to_string());
    assert!(err.contains("database_url"));
    assert!(!err.contains("port"));
}

#[test]
fn error_test_into_grpc_status() {
    let err = CommonError::InvalidInput("bad data".to_string());
    let status = err.into_grpc_status();
    assert_eq!(status.code, GrpcCode::InvalidArgument);
}

#[test]
fn common_error_test_into_grpc_status() {
    let err = CommonError::InvalidInput("bad data".to_string());
    let status = err.into_grpc_status();
    assert_eq!(status.code, GrpcCode::InvalidArgument);
}

#[test]
fn error_test_error_display() {
    let err = CommonError::NotFound("User".to_string());
    assert_eq!(err.display(), "Not found: User");
}

#[test]
fn common_error_test_error_display() {
    let err = CommonError::NotFound("User".to_string());
    assert_eq!(err.display(), "Not found: User");
}

#[test]
fn grpc_codes_map_to_http_statuses() {
    let cases = vec![
        (GrpcCode::InvalidArgument, 400),
        (GrpcCode::NotFound, 404),
        (GrpcCode::Unauthenticated, 401),
        (GrpcCode::PermissionDenied, 403),
        (GrpcCode::AlreadyExists, 500),
        (GrpcCode::ResourceExhausted, 500),
        (GrpcCode::FailedPrecondition, 500),
        (GrpcCode::Aborted, 500),
        (GrpcCode::OutOfRange, 500),
        (GrpcCode::Unimplemented, 500),
        (GrpcCode::Unavailable, 500),
        (GrpcCode::DeadlineExceeded, 500),
        (GrpcCode::Internal, 500),
        (GrpcCode::Unknown, 500),
        (GrpcCode::Success, 500),
    ];
    for (code, http) in cases {
        let err = CommonError::GrpcError(remote(GrpcStatus::new(code, "x")));
        assert_eq!(err.status_code(), http);
        assert!(err.has_status(http));
        assert!(!err.has_status(http + 1));
    }
}

#[test]
fn transport_error_is_bad_gateway() {
    let err = CommonError::TransportError(ForeignError::new("connection refused"));
    assert_eq!(err.status_code(), 502);
    assert_eq!(err.display(), "Transport/Connection error: connection refused");
}

#[test]
fn into_grpc_status_of_each_kind() {
    let s = CommonError::NotFound("User".to_string()).into_grpc_status();
    assert_eq!((s.code, s.message.as_str()), (GrpcCode::NotFound, "User"));

    let s = CommonError::MissingSecret("db_password".to_string()).into_grpc_status();
    assert_eq!((s.code, s.message.as_str()), (GrpcCode::FailedPrecondition, "Missing secret: db_password"));

    let s = CommonError::ConfigError("broken".to_string()).into_grpc_status();
    assert_eq!((s.code, s.message.as_str()), (GrpcCode::Internal, "Configuration error: broken"));

    let s = CommonError::GrpcError(remote(GrpcStatus::new(GrpcCode::Unavailable, "down"))).into_grpc_status();
    assert_eq!((s.code, s.message.as_str()), (GrpcCode::Unavailable, "down"));
}

#[test]
fn report_chain_lists_sources() {
    let io = ForeignError {
        message: "cannot read config.yaml".to_string(),
        sources: vec!["permission denied".to_string()],
    };
    let err = CommonError::IoError(io);
    assert_eq!(
        err.report_chain(),
        vec!["IO error: cannot read config.yaml".to_string(), "cannot read config.yaml".to_string(), "permission denied".to_string()]
    );
    let plain = CommonError::Other("boom".to_string());
    assert_eq!(plain.report_chain(), vec!["Other error: boom".to_string()]);
}

#[test]
fn from_validation_renders_errors() {
    let errors = ValidationErrors {
        entries: vec![ErrorEntry {
            field: "name".to_string(),
            kind: ErrorsKind::Field(vec![FieldError {
                code: "length".to_string(),
                message: Some("Service name cannot be empty".to_string()),
                params: vec![],
            }]),
        }],
    };
    let err = CommonError::from_validation(errors);
    assert_eq!(err, CommonError::ConfigError("Validation failed: name: Service name cannot be empty".to_string()));
}

#[test]
fn app_error_statuses_and_texts() {
    assert_eq!(AppError::InvalidInput("x".to_string()).status_code(), 400);
    assert_eq!(AppError::NotFound("x".to_string()).status_code(), 404);
    assert_eq!(AppError::BackendError("x".to_string()).status_code(), 502);
    assert_eq!(AppError::ConfigError("x".to_string()).status_code(), 500);
    assert_eq!(AppError::GrpcError(remote(GrpcStatus::new(GrpcCode::PermissionDenied, "no"))).status_code(), 403);
    assert_eq!(AppError::GrpcError(remote(GrpcStatus::new(GrpcCode::Unavailable, "down"))).status_code(), 500);
    assert_eq!(AppError::BackendError("greeter down".to_string()).display(), "Backend error: greeter down");
}

#[test]
fn gateway_error_is_transparent() {
    let inner = CommonError::NotFound("User".to_string());
    let err = GatewayError::from(inner.clone());
    assert_eq!(err.display(), inner.display());
    assert_eq!(err.report_chain(), inner.report_chain());
    let response = err.error_response();
    assert_eq!(response.status, 404);
    assert_eq!(response.error, "Not found: User");
    assert_eq!(response.details, vec!["Not found: User".to_string()]);
}

#[test]
fn gateway_specific_error_is_internal() {
    let err = GatewayError::GatewaySpecific("rate limit".to_string());
    let response = err.error_response();
    assert_eq!(response.status, 500);
    assert_eq!(response.error, "Gateway specific logic error: rate limit");
    assert_eq!(response.details, vec!["Gateway specific logic error: rate limit".to_string()]);
}

#[test]
fn received_status_keeps_details_and_metadata() {
    let received = GrpcStatus {
        code: GrpcCode::Unavailable,
        message: "down".to_string(),
        details: vec![1, 2, 3],
        metadata: vec![("retry-after".to_string(), b"5".to_vec())],
    };
    let status = CommonError::GrpcError(remote(received.clone())).into_grpc_status();
    assert_eq!(status, received);

    let own = CommonError::NotFound("User".to_string()).into_grpc_status();
    assert!(own.details.is_empty() && own.metadata.is_empty());
}
