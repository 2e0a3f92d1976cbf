//! The greeter service: greets by name, with the standard or a custom greeting.
use vstd::prelude::*;
use vstd::string::*;
use crate::error::grpc::{GrpcCode, GrpcStatus};
use crate::clock::seconds_since_epoch;

verus! {

/// A request to be greeted.
#[derive(Debug, Clone, PartialEq, Eq)]
pub struct HelloRequest {
    pub name: String,
}

/// A request to be greeted with a chosen greeting.
#[derive(Debug, Clone, PartialEq, Eq)]
pub struct CustomHelloRequest {
    pub name: String,
    pub greeting: String,
}

/// A greeting and the Unix time at which it was made.
#[derive(Debug, Clone, PartialEq, Eq)]
pub struct HelloResponse {
    pub message: String,
    pub timestamp: i64,
}

/// The greeter service. It holds no state.
#[derive(Debug, Default)]
pub struct GreeterService;

/// The longest accepted name, in characters.
pub open spec fn max_name_chars() -> nat {
    100
}

/// The standard greeting of a name, or the message of the `InvalidArgument`
/// status refusing it: an empty name and a name longer than 100 characters are refused.
pub open spec fn hello_of(name: Seq<char>) -> Result<Seq<char>, Seq<char>> {
    if name.len() == 0 {
        Err("Name cannot be empty"@)
    } else if name.len() > max_name_chars() {
        Err("Name too long (max 100 characters)"@)
    } else {
        Ok("Hello, "@ + name + "!"@)
    }
}

/// The custom greeting of a name, or the message of the `InvalidArgument`
/// status refusing it: the name and the greeting must both be non-empty.
pub open spec fn custom_hello_of(name: Seq<char>, greeting: Seq<char>) -> Result<Seq<char>, Seq<char>> {
    if name.len() == 0 {
        Err("Name cannot be empty"@)
    } else if greeting.len() == 0 {
        Err("Greeting cannot be empty"@)
    } else {
        Ok(greeting + ", "@ + name + "!"@)
    }
}

/// Every name of 1 to 100 characters is greeted with `Hello, {name}!`; a
/// name is refused only when it is empty or longer than 100 characters.
pub proof fn lemma_hello(name: Seq<char>)
    ensures
        hello_of(name) is Ok <==> 1 <= name.len() <= 100,
        1 <= name.len() <= 100 ==> hello_of(name) == Ok::<Seq<char>, Seq<char>>("Hello, "@ + name + "!"@),
        name.len() == 0 ==> hello_of(name) == Err::<Seq<char>, Seq<char>>("Name cannot be empty"@),
        name.len() > 100 ==> hello_of(name) == Err::<Seq<char>, Seq<char>>("Name too long (max 100 characters)"@),
{
}

/// A name and a greeting, both non-empty, are greeted with
/// `{greeting}, {name}!`; otherwise the empty name, or else the empty
/// greeting, is refused.
pub proof fn lemma_custom_hello(name: Seq<char>, greeting: Seq<char>)
    ensures
        custom_hello_of(name, greeting) is Ok <==> name.len() > 0 && greeting.len() > 0,
        name.len() > 0 && greeting.len() > 0 ==> custom_hello_of(name, greeting)
            == Ok::<Seq<char>, Seq<char>>(greeting + ", "@ + name + "!"@),
        name.len() == 0 ==> custom_hello_of(name, greeting) == Err::<Seq<char>, Seq<char>>("Name cannot be empty"@),
        name.len() > 0 && greeting.len() == 0 ==> custom_hello_of(name, greeting)
            == Err::<Seq<char>, Seq<char>>("Greeting cannot be empty"@),
{
}

/// The system clock is set before the Unix epoch ("Time went backwards"):
/// how many whole seconds before it.
#[derive(Debug, Clone, Copy, PartialEq, Eq, Structural)]
pub struct ClockBeforeEpoch {
    pub seconds_before: u64,
}

/// The timestamp of a clock reading: the whole seconds since the epoch,
/// converted as `as` does; a clock set before the epoch is an error.
pub open spec fn timestamp_of(reading: Result<u64, u64>) -> Result<i64, ClockBeforeEpoch> {
    match reading {
        Ok(s) => Ok(s as i64),
        Err(before) => Err(ClockBeforeEpoch { seconds_before: before }),
    }
}

/// The answer to a greeting request for a greeting outcome and a clock
/// reading: a refusal is answered first; a greeting is stamped with the
/// reading's timestamp, and a clock set before the epoch is answered with
/// an `Internal` status `Time went backwards`.
pub open spec fn stamped(
    r: Result<HelloResponse, GrpcStatus>,
    outcome: Result<Seq<char>, Seq<char>>,
    reading: Result<u64, u64>,
) -> bool {
    match outcome {
        Err(m) => r matches Err(s) && s.code == GrpcCode::InvalidArgument && s.message@ == m,
        Ok(m) => match timestamp_of(reading) {
            Ok(t) => r matches Ok(resp) && resp.message@ == m && resp.timestamp == t,
            Err(_) => r matches Err(s) && s.code == GrpcCode::Internal && s.message@ == "Time went backwards"@,
        },
    }
}

fn text(s: &str) -> (r: String)
    ensures
        r@ == s@,
{
    String::from_str(s)
}

impl GreeterService {
    /// A greeter service.
    pub fn new() -> (r: GreeterService) {
        GreeterService
    }

    /// The current Unix time in whole seconds, or the error of a clock set
    /// before the epoch (see `timestamp_from`).
    pub fn get_timestamp() -> (r: Result<i64, ClockBeforeEpoch>)
        ensures
            exists|reading: Result<u64, u64>| r == timestamp_of(reading),
    {
        let reading = seconds_since_epoch();
        let r = GreeterService::timestamp_from(reading);
        assert(r == timestamp_of(reading));
        r
    }

    /// The timestamp of a clock reading: the whole seconds since the epoch,
    /// converted as `as` does, or the error of a clock set before the epoch.
    pub fn timestamp_from(reading: Result<u64, u64>) -> (r: Result<i64, ClockBeforeEpoch>)
        ensures
            r == timestamp_of(reading),
            reading matches Ok(s) ==> r == Ok::<i64, ClockBeforeEpoch>(s as i64),
            reading matches Err(b) ==> r == Err::<i64, ClockBeforeEpoch>(ClockBeforeEpoch { seconds_before: b }),
    {
        match reading {
            Ok(seconds) => Ok(#[verifier::truncate] (seconds as i64)),
            Err(before) => Err(ClockBeforeEpoch { seconds_before: before }),
        }
    }

    /// The standard greeting `Hello, {name}!`; an empty name or one longer
    /// than 100 characters is refused with `InvalidArgument`.
    pub fn greet(name: &str) -> (r: Result<String, GrpcStatus>)
        ensures
            r is Ok <==> 1 <= name@.len() <= 100,
            r matches Ok(s) ==> s@ == "Hello, "@ + name@ + "!"@,
            name@.len() == 0 ==> (r matches Err(st) && st.code == GrpcCode::InvalidArgument
                && st.message@ == "Name cannot be empty"@),
            name@.len() > 100 ==> (r matches Err(st) && st.code == GrpcCode::InvalidArgument
                && st.message@ == "Name too long (max 100 characters)"@),
            match hello_of(name@) {
                Ok(m) => r matches Ok(s) && s@ == m,
                Err(m) => r matches Err(s) && s.code == GrpcCode::InvalidArgument && s.message@ == m,
            },
    {
        if name.unicode_len() == 0 {
            return Err(GrpcStatus::invalid_argument("Name cannot be empty"));
        }
        if name.unicode_len() > 100 {
            return Err(GrpcStatus::invalid_argument("Name too long (max 100 characters)"));
        }
        Ok(text("Hello, ").concat(name).concat("!"))
    }

    /// The custom greeting `{greeting}, {name}!`; an empty name or an empty
    /// greeting is refused with `InvalidArgument`.
    pub fn greet_custom(name: &str, greeting: &str) -> (r: Result<String, GrpcStatus>)
        ensures
            r is Ok <==> name@.len() > 0 && greeting@.len() > 0,
            r matches Ok(s) ==> s@ == greeting@ + ", "@ + name@ + "!"@,
            name@.len() == 0 ==> (r matches Err(st) && st.code == GrpcCode::InvalidArgument
                && st.message@ == "Name cannot be empty"@),
            name@.len() > 0 && greeting@.len() == 0 ==> (r matches Err(st) && st.code == GrpcCode::InvalidArgument
                && st.message@ == "Greeting cannot be empty"@),
            match custom_hello_of(name@, greeting@) {
                Ok(m) => r matches Ok(s) && s@ == m,
                Err(m) => r matches Err(s) && s.code == GrpcCode::InvalidArgument && s.message@ == m,
            },
    {
        if name.unicode_len() == 0 {
            return Err(GrpcStatus::invalid_argument("Name cannot be empty"));
        }
        if greeting.unicode_len() == 0 {
            return Err(GrpcStatus::invalid_argument("Greeting cannot be empty"));
        }
        Ok(String::from_str(greeting).concat(", ").concat(name).concat("!"))
    }

    /// Answers a hello request for a clock reading: a refused name is
    /// answered as `greet` refuses it; otherwise the greeting is stamped with
    /// the reading, and a clock set before the epoch is an `Internal` status.
    pub fn say_hello_at(&self, request: HelloRequest, reading: Result<u64, u64>) -> (r: Result<HelloResponse, GrpcStatus>)
        ensures
            stamped(r, hello_of(request.name@), reading),
            r is Ok <==> 1 <= request.name@.len() <= 100 && reading is Ok,
            r matches Ok(resp) ==> resp.message@ == "Hello, "@ + request.name@ + "!"@
                && resp.timestamp == (reading->Ok_0) as i64,
    {
        proof {
            lemma_hello(request.name@);
        }
        match GreeterService::greet(request.name.as_str()) {
            Ok(message) => GreeterService::stamp(message, reading),
            Err(status) => Err(status),
        }
    }

    /// Answers a custom hello request for a clock reading (see `say_hello_at`
    /// and `greet_custom`).
    pub fn say_hello_custom_at(&self, request: CustomHelloRequest, reading: Result<u64, u64>) -> (r: Result<HelloResponse, GrpcStatus>)
        ensures
            stamped(r, custom_hello_of(request.name@, request.greeting@), reading),
            r is Ok <==> request.name@.len() > 0 && request.greeting@.len() > 0 && reading is Ok,
            r matches Ok(resp) ==> resp.message@ == request.greeting@ + ", "@ + request.name@ + "!"@
                && resp.timestamp == (reading->Ok_0) as i64,
    {
        proof {
            lemma_custom_hello(request.name@, request.greeting@);
        }
        match GreeterService::greet_custom(request.name.as_str(), request.greeting.as_str()) {
            Ok(message) => GreeterService::stamp(message, reading),
            Err(status) => Err(status),
        }
    }

    fn stamp(message: String, reading: Result<u64, u64>) -> (r: Result<HelloResponse, GrpcStatus>)
        ensures
            stamped(r, Ok(message@), reading),
    {
        match GreeterService::timestamp_from(reading) {
            Ok(timestamp) => Ok(HelloResponse { message, timestamp }),
            Err(_) => Err(GrpcStatus::internal("Time went backwards")),
        }
    }

    /// Answers a hello request with the clock as it reads now (see
    /// `say_hello_at`).
    pub fn say_hello(&self, request: HelloRequest) -> (r: Result<HelloResponse, GrpcStatus>)
        ensures
            exists|reading: Result<u64, u64>| stamped(r, hello_of(request.name@), reading),
    {
        let reading = seconds_since_epoch();
        let r = self.say_hello_at(request, reading);
        assert(stamped(r, hello_of(request.name@), reading));
        r
    }

    /// Answers a custom hello request with the clock as it reads now (see
    /// `say_hello_custom_at`).
    pub fn say_hello_custom(&self, request: CustomHelloRequest) -> (r: Result<HelloResponse, GrpcStatus>)
        ensures
            exists|reading: Result<u64, u64>| stamped(r, custom_hello_of(request.name@, request.greeting@), reading),
    {
        let reading = seconds_since_epoch();
        let r = self.say_hello_custom_at(request, reading);
        assert(stamped(r, custom_hello_of(request.name@, request.greeting@), reading));
        r
    }
}

} // verus!
