//! The failure taxonomy of the acquisition pipeline.

use vstd::prelude::*;

verus! {

/// Why a symbolic version request could not be resolved against the catalog.
#[derive(Debug, PartialEq, Eq, Structural, Clone, Copy)]
pub enum ResolutionError {
    /// The request is neither a recognized alias nor a literal version.
    UnknownAlias,
    /// No catalog entry matches the requested alias.
    NoMatch,
}

/// Every way an acquisition can fail.  Each layer fails fast and propagates
/// its error upward unchanged.
#[derive(Debug)]
pub enum MariaDbVmError {
    /// Network unreachable, non-2xx status, or timeout, as reported by the
    /// caller's transport.
    Transport { message: String },
    /// A response body that does not match the expected shape.
    Parse { message: String },
    /// No artifact naming convention exists for the host operating system.
    UnsupportedPlatform,
    /// The version request could not be resolved against the catalog.
    Resolution { cause: ResolutionError },
    /// Digest disagreement on a freshly downloaded artifact.
    ChecksumMismatch,
    /// Filesystem failure creating directories or reading or writing files.
    Io { message: String },
}

} // verus!
