//! The failure taxonomy: every operation failure is recovered where it
//! occurs, surfaced as a notification, and never escalates.

use vstd::prelude::*;

verus! {

/// Why an operation failed.
#[derive(Clone, Copy, PartialEq, Eq, Structural, Debug)]
pub enum OpError {
    ListingFailed,
    AuthFailed,
    ArchiveCreateFailed,
    ArchiveExtractFailed,
    TransferFailed,
    IdentityPatchFailed,
    DestinationExists,
    InvalidInput,
}

impl OpError {
    /// A short name for logs and notifications.
    pub fn text(&self) -> (r: &'static str)
        ensures
            ({
                match *self {
                    OpError::ListingFailed => r@ == "listing failed"@,
                    OpError::AuthFailed => r@ == "authorization failed"@,
                    OpError::ArchiveCreateFailed => r@ == "archive creation failed"@,
                    OpError::ArchiveExtractFailed => r@ == "archive extraction failed"@,
                    OpError::TransferFailed => r@ == "transfer failed"@,
                    OpError::IdentityPatchFailed => r@ == "identity patch failed"@,
                    OpError::DestinationExists => r@ == "destination exists"@,
                    OpError::InvalidInput => r@ == "invalid input"@,
                }
            }),
    {
        match self {
            OpError::ListingFailed => "listing failed",
            OpError::AuthFailed => "authorization failed",
            OpError::ArchiveCreateFailed => "archive creation failed",
            OpError::ArchiveExtractFailed => "archive extraction failed",
            OpError::TransferFailed => "transfer failed",
            OpError::IdentityPatchFailed => "identity patch failed",
            OpError::DestinationExists => "destination exists",
            OpError::InvalidInput => "invalid input",
        }
    }
}

} // verus!
