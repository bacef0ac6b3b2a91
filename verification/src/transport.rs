//! The values exchanged with the transport: readiness and read outcomes.

use vstd::prelude::*;

verus! {

/// A transport-level failure, carried through to the caller untouched.
#[verifier::external_type_specification]
#[verifier::external_body]
pub struct ExIoError(std::io::Error);

/// Whether a non-blocking operation has produced its value yet.
#[derive(Debug, PartialEq, Eq)]
pub enum Async<T> {
    /// The value is available.
    Ready(T),
    /// Nothing yet: retry once the transport signals readability.
    NotReady,
}

/// What one non-blocking read on the transport reported.
#[derive(Debug)]
pub enum ReadOutcome {
    /// This many bytes were appended to the buffer; zero means the peer closed.
    Ready(usize),
    /// The read would block.
    NotReady,
    /// The transport failed.
    Failed(std::io::Error),
}

impl ReadOutcome {
    /// New bytes arrived.
    pub open spec fn has_data(self) -> bool {
        self matches ReadOutcome::Ready(n) && n > 0
    }
}

} // verus!
