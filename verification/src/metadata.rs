//! The metadata facade: per-node facts normalized into one stable shape,
//! used both as a public result and by callers that need to tell file,
//! directory and symlink apart.

use vstd::prelude::*;

use crate::fs::SpecNode;

verus! {

/// What kind of object a node is.
#[derive(Clone, Copy, Debug, PartialEq, Eq, Structural)]
pub enum FileType {
    File,
    Dir,
    Symlink,
}

impl FileType {
    /// Whether this is a regular file.
    pub fn is_file(&self) -> (r: bool)
        ensures
            r == (*self == FileType::File),
    {
        matches!(self, FileType::File)
    }

    /// Whether this is a directory.
    pub fn is_dir(&self) -> (r: bool)
        ensures
            r == (*self == FileType::Dir),
    {
        matches!(self, FileType::Dir)
    }

    /// Whether this is a symbolic link.
    pub fn is_symlink(&self) -> (r: bool)
        ensures
            r == (*self == FileType::Symlink),
    {
        matches!(self, FileType::Symlink)
    }
}

/// A view of an object's permission bits.
#[derive(Clone, Copy, Debug, PartialEq, Eq, Structural)]
pub struct Permissions {
    pub mode: u32,
}

impl Permissions {
    /// Whether no write bit is set.
    pub fn readonly(&self) -> (r: bool)
        ensures
            r == (self.mode & 0o222u32 == 0u32),
    {
        self.mode & 0o222 == 0
    }

    /// The raw permission bits.
    pub fn mode(&self) -> (r: u32)
        ensures
            r == self.mode,
    {
        self.mode
    }
}

/// A snapshot of one object: its kind, byte length, permission bits, and
/// identity. The identity is the node's index in its own store; it is not
/// comparable across stores.
#[derive(Clone, Copy, Debug, PartialEq, Eq, Structural)]
pub struct Metadata {
    pub ftype: FileType,
    pub len: u64,
    pub mode: u32,
    pub ino: u64,
}

/// The metadata a node yields: a file reports its byte count, a symlink
/// the length of its target text, a directory zero; symlinks report full
/// permission bits, as a host that never consults them would.
pub open spec fn spec_metadata_of(fs: Seq<SpecNode>, node: usize) -> Metadata {
    match fs[node as int] {
        SpecNode::Dir { mode, .. } => Metadata {
            ftype: FileType::Dir,
            len: 0,
            mode,
            ino: node as u64,
        },
        SpecNode::File { data, mode } => Metadata {
            ftype: FileType::File,
            len: data.len() as u64,
            mode,
            ino: node as u64,
        },
        SpecNode::Symlink { target } => Metadata {
            ftype: FileType::Symlink,
            len: target.len() as u64,
            mode: 0o777,
            ino: node as u64,
        },
    }
}

impl Metadata {
    /// The kind of the object.
    pub fn file_type(&self) -> (r: FileType)
        ensures
            r == self.ftype,
    {
        self.ftype
    }

    /// Whether the object is a regular file.
    pub fn is_file(&self) -> (r: bool)
        ensures
            r == (self.ftype == FileType::File),
    {
        self.ftype.is_file()
    }

    /// Whether the object is a directory.
    pub fn is_dir(&self) -> (r: bool)
        ensures
            r == (self.ftype == FileType::Dir),
    {
        self.ftype.is_dir()
    }

    /// Whether the object is a symbolic link.
    pub fn is_symlink(&self) -> (r: bool)
        ensures
            r == (self.ftype == FileType::Symlink),
    {
        self.ftype.is_symlink()
    }

    /// The object's length in bytes.
    pub fn len(&self) -> (r: u64)
        ensures
            r == self.len,
    {
        self.len
    }

    /// The object's permission bits.
    pub fn permissions(&self) -> (r: Permissions)
        ensures
            r == (Permissions { mode: self.mode }),
    {
        Permissions { mode: self.mode }
    }

    /// The object's identity within its store.
    pub fn ino(&self) -> (r: u64)
        ensures
            r == self.ino,
    {
        self.ino
    }

    /// When the object was last modified. This store keeps no clock, so
    /// the answer is the distinguishable unsupported state — never a
    /// made-up zero time.
    pub fn modified(&self) -> (r: Result<u64, crate::error::FsError>)
        ensures
            r matches Err(e) && e.kind == crate::error::FsErrorKind::Unsupported,
    {
        Err(crate::error::FsError::new(crate::error::FsErrorKind::Unsupported))
    }

    /// When the object was last read; the unsupported state, as with
    /// [`Metadata::modified`].
    pub fn accessed(&self) -> (r: Result<u64, crate::error::FsError>)
        ensures
            r matches Err(e) && e.kind == crate::error::FsErrorKind::Unsupported,
    {
        Err(crate::error::FsError::new(crate::error::FsErrorKind::Unsupported))
    }

    /// When the object was created; the unsupported state, as with
    /// [`Metadata::modified`].
    pub fn created(&self) -> (r: Result<u64, crate::error::FsError>)
        ensures
            r matches Err(e) && e.kind == crate::error::FsErrorKind::Unsupported,
    {
        Err(crate::error::FsError::new(crate::error::FsErrorKind::Unsupported))
    }
}

} // verus!
