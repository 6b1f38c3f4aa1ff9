//! Options controlling how a file is opened, and how a directory is
//! created. Builders are value-style: each setter consumes and returns
//! the options.

use vstd::prelude::*;

verus! {

/// The host-specific extras of a set of open options: the permission bits
/// a created file gets, and pass-through flags the core ignores.
#[derive(Clone, Copy, Debug, PartialEq, Eq, Structural)]
pub struct OpenOptionsExt {
    pub mode: u32,
    pub custom_flags: i32,
}

impl OpenOptionsExt {
    /// The defaults: mode `0o666` and no custom flags.
    pub fn new() -> (r: OpenOptionsExt)
        ensures
            r == (OpenOptionsExt { mode: 0o666u32, custom_flags: 0i32 }),
    {
        OpenOptionsExt { mode: 0o666, custom_flags: 0 }
    }

    /// Sets the permission bits a created file gets.
    pub fn mode(self, mode: u32) -> (r: OpenOptionsExt)
        ensures
            r == (OpenOptionsExt { mode, ..self }),
    {
        OpenOptionsExt { mode, ..self }
    }

    /// Sets flags handed through to the host untouched.
    pub fn custom_flags(self, custom_flags: i32) -> (r: OpenOptionsExt)
        ensures
            r == (OpenOptionsExt { custom_flags, ..self }),
    {
        OpenOptionsExt { custom_flags, ..self }
    }
}

/// How to open a file: access mode and creation behaviour.
#[derive(Clone, Copy, Debug, PartialEq, Eq, Structural)]
pub struct OpenOptions {
    pub read: bool,
    pub write: bool,
    pub append: bool,
    pub truncate: bool,
    pub create: bool,
    pub create_new: bool,
    pub ext: OpenOptionsExt,
}

impl OpenOptions {
    /// Everything off; mode `0o666`.
    pub fn new() -> (r: OpenOptions)
        ensures
            r == (OpenOptions {
                read: false,
                write: false,
                append: false,
                truncate: false,
                create: false,
                create_new: false,
                ext: OpenOptionsExt { mode: 0o666u32, custom_flags: 0i32 },
            }),
    {
        OpenOptions {
            read: false,
            write: false,
            append: false,
            truncate: false,
            create: false,
            create_new: false,
            ext: OpenOptionsExt::new(),
        }
    }

    /// Requests read access.
    pub fn read(self, read: bool) -> (r: OpenOptions)
        ensures
            r == (OpenOptions { read, ..self }),
    {
        OpenOptions { read, ..self }
    }

    /// Requests write access.
    pub fn write(self, write: bool) -> (r: OpenOptions)
        ensures
            r == (OpenOptions { write, ..self }),
    {
        OpenOptions { write, ..self }
    }

    /// Requests appending writes.
    pub fn append(self, append: bool) -> (r: OpenOptions)
        ensures
            r == (OpenOptions { append, ..self }),
    {
        OpenOptions { append, ..self }
    }

    /// Requests that an existing file be emptied on open.
    pub fn truncate(self, truncate: bool) -> (r: OpenOptions)
        ensures
            r == (OpenOptions { truncate, ..self }),
    {
        OpenOptions { truncate, ..self }
    }

    /// Requests that a missing file be created.
    pub fn create(self, create: bool) -> (r: OpenOptions)
        ensures
            r == (OpenOptions { create, ..self }),
    {
        OpenOptions { create, ..self }
    }

    /// Requests that the file be created, failing if it already exists.
    pub fn create_new(self, create_new: bool) -> (r: OpenOptions)
        ensures
            r == (OpenOptions { create_new, ..self }),
    {
        OpenOptions { create_new, ..self }
    }

    /// Sets the permission bits a created file gets.
    pub fn mode(self, mode: u32) -> (r: OpenOptions)
        ensures
            r == (OpenOptions { ext: OpenOptionsExt { mode, ..self.ext }, ..self }),
    {
        OpenOptions { ext: self.ext.mode(mode), ..self }
    }

    /// Whether this combination of flags is one the library carries out.
    /// Truncating needs write access; creating needs write or append
    /// access; appending excludes truncating; and some access must be
    /// requested.
    pub open spec fn spec_flags_ok(&self) -> bool {
        &&& !(self.truncate && !self.write)
        &&& !((self.create || self.create_new) && !(self.write || self.append))
        &&& !(self.append && self.truncate)
        &&& (self.read || self.write || self.append)
    }
}

/// How to create a directory: one level or the whole chain, and with
/// which permission bits.
#[derive(Clone, Copy, Debug, PartialEq, Eq, Structural)]
pub struct DirBuilder {
    pub recursive: bool,
    pub mode: u32,
}

impl DirBuilder {
    /// One level, mode `0o777`.
    pub fn new() -> (r: DirBuilder)
        ensures
            r == (DirBuilder { recursive: false, mode: 0o777u32 }),
    {
        DirBuilder { recursive: false, mode: 0o777 }
    }

    /// Whether missing parents are created too.
    pub fn recursive(self, recursive: bool) -> (r: DirBuilder)
        ensures
            r == (DirBuilder { recursive, ..self }),
    {
        DirBuilder { recursive, ..self }
    }

    /// Sets the permission bits created directories get.
    pub fn mode(self, mode: u32) -> (r: DirBuilder)
        ensures
            r == (DirBuilder { mode, ..self }),
    {
        DirBuilder { mode, ..self }
    }
}

} // verus!
