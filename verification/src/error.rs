use vstd::prelude::*;

verus! {

/// The ways a text read can fail, reported to the caller as a recoverable
/// value instead of aborting the handling context.
#[derive(Clone, Copy, Debug, PartialEq, Eq, Structural)]
pub enum FsError {
    /// The path names no filesystem entry.
    NotFound,
    /// The entry exists but is not accessible.
    PermissionDenied,
    /// The path resolves to a directory where a file read was requested.
    IsADirectory,
    /// The file's bytes are not valid UTF-8 text.
    InvalidEncoding,
}

} // verus!
