//! The errors of the library.

use vstd::prelude::*;

verus! {

/// Why a scan was refused before it started, or why an event was not accepted.
#[derive(Clone, Copy, Debug, PartialEq, Eq, Structural)]
pub enum ScanError {
    /// The target did not parse as an IP address.
    InvalidTarget,
    /// A port bound is zero, or the first port lies above the last.
    InvalidRange,
    /// The concurrency cap is zero.
    InvalidConcurrency,
    /// The per-probe timeout is zero.
    InvalidTimeout,
    /// A completion was reported for a port that has no probe in flight.
    NotInFlight,
}

impl ScanError {
    /// What `message` returns for each error.
    pub open spec fn message_text(self) -> Seq<char> {
        match self {
            ScanError::InvalidTarget => "Invalid IP address"@,
            ScanError::InvalidRange => "Invalid port range"@,
            ScanError::InvalidConcurrency => "Concurrency must be at least 1"@,
            ScanError::InvalidTimeout => "Timeout must be greater than zero"@,
            ScanError::NotInFlight => "No probe is in flight for that port"@,
        }
    }

    /// The exit status of a program that stops on this error. A program
    /// that scanned, or only printed its usage, exits with status 0.
    pub fn exit_code(&self) -> (code: i32)
        ensures
            code == 1,
    {
        1
    }

    /// A short description of the error, for the user.
    pub fn message(&self) -> (text: &'static str)
        ensures
            text@ == self.message_text(),
    {
        match self {
            ScanError::InvalidTarget => "Invalid IP address",
            ScanError::InvalidRange => "Invalid port range",
            ScanError::InvalidConcurrency => "Concurrency must be at least 1",
            ScanError::InvalidTimeout => "Timeout must be greater than zero",
            ScanError::NotInFlight => "No probe is in flight for that port",
        }
    }
}

} // verus!
