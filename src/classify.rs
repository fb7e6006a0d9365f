use vstd::prelude::*;

verus! {

/// The kinds of failure a remote call can report, in a platform-neutral
/// vocabulary. The integration layer maps its platform's errors onto these.
#[derive(Clone, Copy, Debug, PartialEq, Eq, Structural)]
pub enum FailureKind {
    /// The transport gave up waiting for an answer.
    Timeout,
    /// The platform is overloaded and asked the caller to come back later.
    Overloaded,
    /// The platform, or the route to it, is unavailable for the moment.
    Unavailable,
    /// The platform rejected the request.
    Rejected,
    /// The request failed validation.
    Invalid,
    /// Any other permanent error of the platform.
    Permanent,
}

/// A failure reported by a remote call: its kind, and a description for the
/// caller.
#[derive(Clone, Debug)]
pub struct RemoteError {
    pub kind: FailureKind,
    pub message: String,
}

/// The kinds of failure after which resending the same request is safe.
pub open spec fn transient(kind: FailureKind) -> bool {
    match kind {
        FailureKind::Timeout | FailureKind::Overloaded | FailureKind::Unavailable => true,
        _ => false,
    }
}

/// Whether a failed remote call may be retried.
pub fn is_retryable(error: &RemoteError) -> (r: bool)
    ensures
        r == transient(error.kind),
{
    match error.kind {
        FailureKind::Timeout | FailureKind::Overloaded | FailureKind::Unavailable => true,
        FailureKind::Rejected | FailureKind::Invalid | FailureKind::Permanent => false,
    }
}

} // verus!
