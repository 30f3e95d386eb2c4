//! What counts as a successful upload.

use crate::failure::Failure;
use vstd::prelude::*;

verus! {

/// What the host observed of one upload attempt: the file is read in full,
/// then sent as the body of one POST request.
#[derive(Clone, Copy, Debug, PartialEq, Eq, Structural)]
pub enum UploadOutcome {
    /// The file could not be read; no request was sent.
    ReadFailed,
    /// The request was sent but no response came back.
    TransportFailed,
    /// The server answered with this status code.
    Responded { status: u16 },
}

/// The status codes 200 to 299.
pub open spec fn is_success_status(status: u16) -> bool {
    200 <= status <= 299
}

/// The failure that an outcome amounts to, if any. Only a response with a
/// success status is no failure.
pub open spec fn failure_of(outcome: UploadOutcome) -> Option<Failure> {
    match outcome {
        UploadOutcome::ReadFailed => Some(Failure::Read),
        UploadOutcome::TransportFailed => Some(Failure::Upload),
        UploadOutcome::Responded { status } => if is_success_status(status) {
            None
        } else {
            Some(Failure::Upload)
        },
    }
}

/// Judges one upload attempt.
pub fn judge(outcome: UploadOutcome) -> (r: Result<(), Failure>)
    ensures
        r == match failure_of(outcome) {
            None => Ok::<(), Failure>(()),
            Some(failure) => Err::<(), Failure>(failure),
        },
{
    match outcome {
        UploadOutcome::ReadFailed => Err(Failure::Read),
        UploadOutcome::TransportFailed => Err(Failure::Upload),
        UploadOutcome::Responded { status } => {
            if 200 <= status && status <= 299 {
                Ok(())
            } else {
                Err(Failure::Upload)
            }
        },
    }
}

} // verus!
