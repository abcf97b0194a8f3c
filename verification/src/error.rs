//! Error taxonomy: I/O failures, unparseable attribute content, and the
//! not-found condition reported by device discovery.

use vstd::prelude::*;

verus! {

/// The condition an attribute-file access failed with. The kernel reports
/// the precise cause; callers that perform the file access classify it into
/// one of these before handing it to the library.
#[derive(Clone, Copy, Debug, PartialEq, Eq, Structural)]
pub enum IoErrorKind {
    /// The attribute file (or the whole device) does not exist.
    NotFound,
    /// The attribute file exists but may not be read or written.
    PermissionDenied,
    /// Any other I/O failure.
    Other,
}

/// Every failure the keyboard-backlight operations can report.
#[derive(Clone, Copy, Debug, PartialEq, Eq, Structural)]
pub enum M4ArchError {
    /// An underlying file read or write failed.
    Io(IoErrorKind),
    /// The attribute file was read but its content is not in the expected
    /// integer or triple shape.
    InvalidValue,
    /// A write was refused for lack of privilege.
    PermissionDenied,
}

} // verus!
