use common::error::grpc::GrpcCode;
use common::greeter::service::{ClockBeforeEpoch, CustomHelloRequest, GreeterService, HelloRequest};

fn service() -> GreeterService {
    GreeterService::new()
}

#[test]
fn test_say_hello_success() {
    let svc = service();
    let hello = svc.say_hello(HelloRequest { name: "Alice".to_string() }).unwrap();

    assert_eq!(hello.message, "Hello, Alice!");
    assert!(hello.timestamp > 0);
}

#[test]
fn test_say_hello_empty_name() {
    let svc = service();
    let result = svc.say_hello(HelloRequest { name: "".to_string() });
    assert!(result.is_err());

    let status = result.unwrap_err();
    assert_eq!(status.code, GrpcCode::InvalidArgument);
    assert!(status.message.contains("empty"));
}

#[test]
fn test_say_hello_name_too_long() {
    let svc = service();
    let result = svc.say_hello(HelloRequest { name: "A".repeat(101) });
    assert!(result.is_err());

    let status = result.unwrap_err();
    assert_eq!(status.code, GrpcCode::InvalidArgument);
    assert!(status.message.contains("too long"));
}

#[test]
fn test_say_hello_unicode() {
    let svc = service();
    let hello = svc.say_hello(HelloRequest { name: "世界".to_string() }).unwrap();

    assert_eq!(hello.message, "Hello, 世界!");
}

#[test]
fn test_say_hello_custom_success() {
    let svc = service();
    let hello = svc
        .say_hello_custom(CustomHelloRequest { name: "World".to_string(), greeting: "Howdy".to_string() })
        .unwrap();

    assert_eq!(hello.message, "Howdy, World!");
    assert!(hello.timestamp > 0);
}

#[test]
fn test_say_hello_custom_empty_greeting() {
    let svc = service();
    let result = svc.say_hello_custom(CustomHelloRequest { name: "Alice".to_string(), greeting: "".to_string() });
    assert!(result.is_err());

    let status = result.unwrap_err();
    assert_eq!(status.code, GrpcCode::InvalidArgument);
    assert!(status.message.contains("Greeting"));
}

#[test]
fn test_timestamp_is_recent() {
    let svc = service();
    let before = GreeterService::get_timestamp().unwrap();
    let response = svc.say_hello(HelloRequest { name: "Test".to_string() }).unwrap();
    let after = GreeterService::get_timestamp().unwrap();

    let timestamp = response.timestamp;

    assert!(timestamp >= before && timestamp <= after);
}

#[test]
fn name_limit_counts_characters() {
    assert!(GreeterService::greet(&"A".repeat(100)).is_ok());
    assert_eq!(GreeterService::greet(&"世".repeat(100)).unwrap(), format!("Hello, {}!", "世".repeat(100)));
    let status = GreeterService::greet(&"世".repeat(101)).unwrap_err();
    assert_eq!(status.message, "Name too long (max 100 characters)");
}

#[test]
fn custom_greeting_checks_name_first() {
    let status = GreeterService::greet_custom("", "").unwrap_err();
    assert_eq!(status.message, "Name cannot be empty");
}

#[test]
fn timestamps_of_clock_readings() {
    assert_eq!(GreeterService::timestamp_from(Ok(1_700_000_000)), Ok(1_700_000_000));
    assert_eq!(GreeterService::timestamp_from(Ok(0)), Ok(0));
    assert_eq!(GreeterService::timestamp_from(Err(5)), Err(ClockBeforeEpoch { seconds_before: 5 }));
}

#[test]
fn greetings_are_stamped_with_the_given_seconds() {
    let svc = service();
    let hello = svc.say_hello_at(HelloRequest { name: "Alice".to_string() }, Ok(1_704_105_600)).unwrap();
    assert_eq!(hello.message, "Hello, Alice!");
    assert_eq!(hello.timestamp, 1_704_105_600);
    let custom = svc
        .say_hello_custom_at(CustomHelloRequest { name: "World".to_string(), greeting: "Howdy".to_string() }, Ok(42))
        .unwrap();
    assert_eq!(custom.message, "Howdy, World!");
    assert_eq!(custom.timestamp, 42);
    assert!(svc.say_hello_at(HelloRequest { name: "".to_string() }, Ok(42)).is_err());
}

#[test]
fn clock_before_the_epoch_is_an_error() {
    let svc = service();
    let status = svc.say_hello_at(HelloRequest { name: "Alice".to_string() }, Err(3)).unwrap_err();
    assert_eq!(status.code, GrpcCode::Internal);
    assert_eq!(status.message, "Time went backwards");
    // A refused name is answered before the clock matters.
    let status = svc.say_hello_at(HelloRequest { name: "".to_string() }, Err(3)).unwrap_err();
    assert_eq!(status.code, GrpcCode::InvalidArgument);
}
