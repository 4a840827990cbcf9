use vstd::prelude::*;

verus! {

/// Every failure a facade operation can surface.
///
/// Each operation returns either its value or exactly one of these kinds;
/// none of the library's verified functions panics on an expected condition.
#[derive(Clone, Copy, Debug, PartialEq, Eq, Structural)]
pub enum Error {
    /// A command could not be delivered: the receiving worker is gone.
    SendFailed,
    /// The reply channel closed before a reply arrived.
    ReceiveFailed,
    /// A reply of the wrong shape arrived for the pending request.
    UnexpectedReply,
    /// Caller-supplied input was rejected before any state changed.
    ValidationFailed,
    /// The queried id is absent from the registry.
    NotFound,
    /// A roster query found nothing registered (or nothing active).
    EmptyResult,
    /// A wait on the registry ran past its deadline.
    DeadlineExceeded,
}

} // verus!
