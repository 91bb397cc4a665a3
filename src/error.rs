//! The error taxonomy shared by every backend.
use vstd::prelude::*;

verus! {

/// What kind of failure an operation met.
#[derive(Debug, Clone, Copy, PartialEq, Eq, Structural)]
pub enum ErrorKind {
    InvalidInput,
    NotFound,
    AlreadyExists,
    PermissionDenied,
    OutOfMemory,
    Other,
}

/// Why an operation failed.
#[derive(Debug, Clone, Copy, PartialEq, Eq, Structural)]
pub enum Reason {
    /// The gateway is not of the destination's family.
    GatewayFamily,
    /// The source selector is not of the destination's family.
    SourceFamily,
    /// The preferred source is not of the destination's family.
    SourceHintFamily,
    /// Neither a gateway nor an interface was given.
    NoNextHop,
    /// The prefix is longer than the destination's family allows.
    PrefixTooLong,
    /// No installed route matches the one to delete.
    NoMatchingRoute,
    /// A kernel reply is shorter than its header.
    ShortReply,
    /// A kernel message carries another version of the message format.
    VersionMismatch,
    /// A kernel message is cut short or its length field is impossible.
    Malformed,
    /// The BSD kernel reported this `errno`.
    Errno(i32),
    /// The Windows IP Helper returned this status code.
    Status(u32),
}

/// An error of a routing operation: its kind and its cause.
#[derive(Debug, Clone, Copy, PartialEq, Eq, Structural)]
pub struct RouteError {
    pub kind: ErrorKind,
    pub reason: Reason,
}

impl RouteError {
    pub fn new(kind: ErrorKind, reason: Reason) -> (r: RouteError)
        ensures
            r == (RouteError { kind, reason }),
    {
        RouteError { kind, reason }
    }
}

} // verus!
