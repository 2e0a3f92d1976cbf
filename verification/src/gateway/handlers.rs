//! How the gateway answers a greeting request once the greeter replied.
use vstd::prelude::*;
use crate::clock::seconds_since_epoch;
use crate::error::common_error::CommonError;
use crate::error::grpc::RemoteStatus;
use crate::gateway::error::GatewayError;
use crate::greeter::service::HelloResponse;

verus! {

/// The request timeout of the greeter client when none is configured, in
/// milliseconds.
pub open spec fn default_client_timeout_ms() -> u64 {
    30000
}

/// The request timeout of the greeter client: the configured one, or 30 s.
pub fn client_timeout_ms(configured: Option<u64>) -> (r: u64)
    ensures
        r == match configured {
            Some(t) => t,
            None => default_client_timeout_ms(),
        },
        configured is None ==> r == 30000,
        configured matches Some(t) ==> r == t,
{
    match configured {
        Some(t) => t,
        None => 30000,
    }
}

/// The timestamp the gateway puts on a greeting: its own clock's seconds
/// since the epoch (converted as `as` does), or 0 when the clock is set
/// before the epoch.
pub open spec fn gateway_timestamp(reading: Result<u64, u64>) -> i64 {
    match reading {
        Ok(s) => s as i64,
        Err(_) => 0,
    }
}

/// The answer for a greeter reply: the greeting, stamped with the gateway's
/// clock, or the greeter's status as a shared error.
pub open spec fn answers_reply(
    reply: Result<HelloResponse, RemoteStatus>,
    reading: Result<u64, u64>,
    r: Result<HelloResponse, GatewayError>,
) -> bool {
    match reply {
        Ok(resp) => r matches Ok(a) && a.message@ == resp.message@ && a.timestamp == gateway_timestamp(reading),
        Err(s) => r == Err::<HelloResponse, GatewayError>(GatewayError::Common(CommonError::GrpcError(s))),
    }
}

/// Answers a greeting request from the greeter's reply and a reading of the
/// gateway's clock.
pub fn hello_reply(reply: Result<HelloResponse, RemoteStatus>, reading: Result<u64, u64>) -> (r: Result<HelloResponse, GatewayError>)
    ensures
        answers_reply(reply, reading, r),
        reply is Ok <==> r is Ok,
        r matches Ok(a) ==> reply matches Ok(resp) && a.message == resp.message
            && a.timestamp == (if reading is Ok { (reading->Ok_0) as i64 } else { 0i64 }),
        reply matches Err(s) ==> r == Err::<HelloResponse, GatewayError>(GatewayError::Common(CommonError::GrpcError(s))),
{
    match reply {
        Ok(resp) => {
            let timestamp: i64 = match reading {
                Ok(s) => #[verifier::truncate] (s as i64),
                Err(_) => 0,
            };
            Ok(HelloResponse { message: resp.message, timestamp })
        },
        Err(s) => Err(GatewayError::Common(CommonError::GrpcError(s))),
    }
}

/// Answers a greeting request from the greeter's reply, stamping the
/// greeting with the gateway's clock as it reads now.
pub fn answer_hello(reply: Result<HelloResponse, RemoteStatus>) -> (r: Result<HelloResponse, GatewayError>)
    ensures
        exists|reading: Result<u64, u64>| answers_reply(reply, reading, r),
{
    let reading = seconds_since_epoch();
    hello_reply(reply, reading)
}

} // verus!
