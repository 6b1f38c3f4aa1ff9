//! The error taxonomy: confinement violations, input validation failures,
//! filesystem-state errors, and capability gaps, each with a stable kind.

use vstd::prelude::*;

verus! {

/// What went wrong during an operation.
///
/// Confinement violations (`EscapesRoot`, `UnexpectedSymlink`,
/// `TooManySymlinks`) are distinct from ordinary filesystem errors such as
/// `NotFound`, so that callers can tell "forbidden" from "missing".
#[derive(Clone, Copy, Debug, PartialEq, Eq, Structural)]
pub enum FsErrorKind {
    /// The path is absolute, or a `..` component would climb above the
    /// directory the walk started from.
    EscapesRoot,
    /// A named component does not exist.
    NotFound,
    /// A non-final component, or the result of an operation that needs a
    /// directory, is not a directory.
    NotADirectory,
    /// A directory stood where the operation needs a file.
    IsADirectory,
    /// The final component is a symbolic link and the operation refuses to
    /// follow one there.
    UnexpectedSymlink,
    /// Following symbolic links exceeded the fixed expansion bound.
    TooManySymlinks,
    /// The path or an argument is malformed (an embedded NUL byte, a leaf
    /// that is not a plain name, an inconsistent set of open options).
    InvalidInput,
    /// Bytes that should decode as text do not.
    InvalidUtf8,
    /// The target name already exists.
    AlreadyExists,
    /// The directory to remove still has entries.
    DirectoryNotEmpty,
    /// The operation is not permitted on this kind of object.
    PermissionDenied,
    /// The operation is not implemented by this backend; a capability gap,
    /// not a runtime failure.
    Unsupported,
}

/// An operation failure, carrying its kind.
#[derive(Clone, Copy, Debug, PartialEq, Eq, Structural)]
pub struct FsError {
    pub kind: FsErrorKind,
}

/// The message text reported for each error kind.
pub open spec fn spec_message(kind: FsErrorKind) -> Seq<char> {
    match kind {
        FsErrorKind::EscapesRoot => "a path led outside of the filesystem"@,
        FsErrorKind::NotFound => "no such file or directory"@,
        FsErrorKind::NotADirectory => "not a directory"@,
        FsErrorKind::IsADirectory => "is a directory"@,
        FsErrorKind::UnexpectedSymlink => "symlink encountered where none was expected"@,
        FsErrorKind::TooManySymlinks => "too many levels of symbolic links"@,
        FsErrorKind::InvalidInput => "invalid input parameter"@,
        FsErrorKind::InvalidUtf8 => "invalid utf-8 sequence"@,
        FsErrorKind::AlreadyExists => "entity already exists"@,
        FsErrorKind::DirectoryNotEmpty => "directory not empty"@,
        FsErrorKind::PermissionDenied => "permission denied"@,
        FsErrorKind::Unsupported => "operation not supported on this backend"@,
    }
}

impl FsError {
    /// Wraps a kind as an error value.
    pub fn new(kind: FsErrorKind) -> (r: FsError)
        ensures
            r.kind == kind,
    {
        FsError { kind }
    }

    /// The kind of this error.
    pub fn kind(&self) -> (r: FsErrorKind)
        ensures
            r == self.kind,
    {
        self.kind
    }

    /// A human-readable description of this error.
    pub fn message(&self) -> (r: String)
        ensures
            r@ == spec_message(self.kind),
    {
        let m: &str = match self.kind {
            FsErrorKind::EscapesRoot => "a path led outside of the filesystem",
            FsErrorKind::NotFound => "no such file or directory",
            FsErrorKind::NotADirectory => "not a directory",
            FsErrorKind::IsADirectory => "is a directory",
            FsErrorKind::UnexpectedSymlink => "symlink encountered where none was expected",
            FsErrorKind::TooManySymlinks => "too many levels of symbolic links",
            FsErrorKind::InvalidInput => "invalid input parameter",
            FsErrorKind::InvalidUtf8 => "invalid utf-8 sequence",
            FsErrorKind::AlreadyExists => "entity already exists",
            FsErrorKind::DirectoryNotEmpty => "directory not empty",
            FsErrorKind::PermissionDenied => "permission denied",
            FsErrorKind::Unsupported => "operation not supported on this backend",
        };
        m.to_owned()
    }
}

} // verus!
