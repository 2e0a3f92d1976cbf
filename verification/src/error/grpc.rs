//! gRPC status codes and statuses, and errors raised by outside code.
use vstd::prelude::*;
use vstd::string::*;

verus! {

/// The gRPC status codes.
#[derive(Debug, Clone, Copy, PartialEq, Eq, Structural)]
pub enum GrpcCode {
    /// The call completed (gRPC code 0, `OK`).
    Success,
    Cancelled,
    Unknown,
    InvalidArgument,
    DeadlineExceeded,
    NotFound,
    AlreadyExists,
    PermissionDenied,
    ResourceExhausted,
    FailedPrecondition,
    Aborted,
    OutOfRange,
    Unimplemented,
    Internal,
    Unavailable,
    DataLoss,
    Unauthenticated,
}

/// A gRPC status to answer a call with: a code, a message, binary details,
/// and metadata entries (name and value as sent).
#[derive(Debug, Clone, PartialEq, Eq)]
pub struct GrpcStatus {
    pub code: GrpcCode,
    pub message: String,
    pub details: Vec<u8>,
    pub metadata: Vec<(String, Vec<u8>)>,
}

/// The status carries no details and no metadata.
pub open spec fn is_bare(s: GrpcStatus) -> bool {
    s.details@.len() == 0 && s.metadata@.len() == 0
}

impl GrpcStatus {
    /// A status with the given code and message.
    pub fn new(code: GrpcCode, message: &str) -> (r: GrpcStatus)
        ensures
            r.code == code,
            r.message@ == message@,
            is_bare(r),
    {
        GrpcStatus { code, message: String::from_str(message), details: Vec::new(), metadata: Vec::new() }
    }

    /// A status with code `InvalidArgument`.
    pub fn invalid_argument(message: &str) -> (r: GrpcStatus)
        ensures
            r.code == GrpcCode::InvalidArgument,
            r.message@ == message@,
            is_bare(r),
    {
        GrpcStatus::new(GrpcCode::InvalidArgument, message)
    }

    /// A status with code `NotFound`.
    pub fn not_found(message: &str) -> (r: GrpcStatus)
        ensures
            r.code == GrpcCode::NotFound,
            r.message@ == message@,
            is_bare(r),
    {
        GrpcStatus::new(GrpcCode::NotFound, message)
    }

    /// A status with code `FailedPrecondition`.
    pub fn failed_precondition(message: &str) -> (r: GrpcStatus)
        ensures
            r.code == GrpcCode::FailedPrecondition,
            r.message@ == message@,
            is_bare(r),
    {
        GrpcStatus::new(GrpcCode::FailedPrecondition, message)
    }

    /// A status with code `Internal`.
    pub fn internal(message: &str) -> (r: GrpcStatus)
        ensures
            r.code == GrpcCode::Internal,
            r.message@ == message@,
            is_bare(r),
    {
        GrpcStatus::new(GrpcCode::Internal, message)
    }
}

/// An error raised by code outside this library, kept as the text it
/// displays and the texts of its chain of sources, nearest first.
#[derive(Debug, Clone, PartialEq, Eq)]
pub struct ForeignError {
    pub message: String,
    pub sources: Vec<String>,
}

impl ForeignError {
    /// An error with the given text and no sources.
    pub fn new(message: &str) -> (r: ForeignError)
        ensures
            r.message@ == message@,
            r.sources@.len() == 0,
    {
        ForeignError { message: String::from_str(message), sources: Vec::new() }
    }
}

/// A gRPC status received from a remote service, with how it displays itself.
#[derive(Debug, Clone, PartialEq, Eq)]
pub struct RemoteStatus {
    pub status: GrpcStatus,
    pub error: ForeignError,
}

/// The texts of an outside error: its own, then its sources'.
pub open spec fn foreign_chain(e: ForeignError) -> Seq<Seq<char>> {
    seq![e.message@] + e.sources@.map_values(|s: String| s@)
}

/// Copies the texts of an outside error after those already in `out`.
pub fn push_foreign_chain(e: &ForeignError, out: &mut Vec<String>)
    ensures
        final(out)@.map_values(|s: String| s@) == old(out)@.map_values(|s: String| s@) + foreign_chain(*e),
{
    let ghost start = out@.map_values(|s: String| s@);
    out.push(e.message.clone());
    let mut i: usize = 0;
    while i < e.sources.len()
        invariant
            i <= e.sources.len(),
            out@.map_values(|s: String| s@) == start + seq![e.message@] + e.sources@.subrange(0, i as int).map_values(|s: String| s@),
        decreases e.sources.len() - i,
    {
        let ghost before = out@;
        out.push(e.sources[i].clone());
        proof {
            assert(out@ =~= before.push(e.sources@[i as int]));
            assert(e.sources@.subrange(0, i + 1) =~= e.sources@.subrange(0, i as int).push(e.sources@[i as int]));
            assert(e.sources@.subrange(0, i + 1).map_values(|s: String| s@) =~= e.sources@.subrange(0, i as int).map_values(|s: String| s@).push(e.sources@[i as int]@));
            assert(out@.map_values(|s: String| s@) =~= before.map_values(|s: String| s@).push(e.sources@[i as int]@));
            assert(out@.map_values(|s: String| s@) =~= start + seq![e.message@] + e.sources@.subrange(0, i + 1).map_values(|s: String| s@));
        }
        i = i + 1;
    }
    proof {
        assert(e.sources@.subrange(0, e.sources.len() as int) =~= e.sources@);
        assert(out@.map_values(|s: String| s@) =~= start + foreign_chain(*e));
    }
}

} // verus!
