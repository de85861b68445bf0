//! The failures the binding reports to its host.

use vstd::prelude::*;

verus! {

/// The status tag the host sees on a failure.
#[derive(Clone, Copy, Debug, PartialEq, Eq, Structural)]
pub enum Status {
    /// The caller handed over something unusable: bad audio, a string with an
    /// interior zero byte, or a handle without a loaded model.
    InvalidArg,
    /// The engine failed, or produced text that is not UTF-8.
    GenericFailure,
}

/// A failure: its status tag and a message for the host.
#[derive(Debug, PartialEq, Eq)]
pub struct WhisperError {
    pub status: Status,
    pub reason: String,
}

impl WhisperError {
    /// Whether this failure carries exactly `status` and the message `reason`.
    pub open spec fn carries(&self, status: Status, reason: Seq<char>) -> bool {
        self.status == status && self.reason@ == reason
    }

    /// A failure for an unusable argument.
    pub fn invalid_arg(reason: &str) -> (e: WhisperError)
        ensures
            e.carries(Status::InvalidArg, reason@),
    {
        WhisperError { status: Status::InvalidArg, reason: reason.to_owned() }
    }

    /// A failure of the engine or of its output.
    pub fn generic_failure(reason: &str) -> (e: WhisperError)
        ensures
            e.carries(Status::GenericFailure, reason@),
    {
        WhisperError { status: Status::GenericFailure, reason: reason.to_owned() }
    }
}

} // verus!
