//! Failure kinds of installation and launch.

use vstd::prelude::*;

verus! {

/// Why an installation or launch step failed.
#[derive(Clone, Copy, Debug, PartialEq, Eq, Structural)]
pub enum LaunchError {
    /// A transfer failed and its retries ran out.
    Network,
    /// Downloaded bytes kept failing their checksum until the retries ran out.
    ChecksumMismatch,
    /// A catalog entry or file that was asked for does not exist.
    NotFound,
    /// Metadata does not have the shape it must have.
    MalformedManifest,
    /// An installer step or the game process failed to start or exited with failure.
    ProcessFailure,
    /// No account is marked active.
    NoActiveAccount,
}

impl LaunchError {
    /// A short message for progress events.
    pub fn message(&self) -> (r: String)
        ensures
            r@ == match self {
                LaunchError::Network => "network transfer failed"@,
                LaunchError::ChecksumMismatch => "checksum mismatch"@,
                LaunchError::NotFound => "not found"@,
                LaunchError::MalformedManifest => "malformed metadata"@,
                LaunchError::ProcessFailure => "process failed"@,
                LaunchError::NoActiveAccount => "no active account found"@,
            },
    {
        match self {
            LaunchError::Network => String::from_str("network transfer failed"),
            LaunchError::ChecksumMismatch => String::from_str("checksum mismatch"),
            LaunchError::NotFound => String::from_str("not found"),
            LaunchError::MalformedManifest => String::from_str("malformed metadata"),
            LaunchError::ProcessFailure => String::from_str("process failed"),
            LaunchError::NoActiveAccount => String::from_str("no active account found"),
        }
    }
}

} // verus!
