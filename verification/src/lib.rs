//! A capability-based filesystem: a holder of a directory handle can reach
//! only what lies below that directory, never anything outside it.
//!
//! Every operation takes a handle and a path relative to it. The resolver
//! walks the path one component at a time against an explicit filesystem
//! store, satisfying `..` by popping a stack of already-visited ancestors,
//! following symbolic links up to a fixed bound, and rejecting absolute
//! paths outright, so that no walk can escape the directory it started from.

pub mod dir;
pub mod dir_entry;
pub mod error;
pub mod file;
pub mod fs;
pub mod laws;
pub mod metadata;
pub mod open_options;
pub mod path;
pub mod resolve;

pub use dir::Dir;
pub use dir_entry::{DirEntry, ReadDir};
pub use error::{FsError, FsErrorKind};
pub use file::File;
pub use fs::FsState;
pub use metadata::{FileType, Metadata, Permissions};
pub use open_options::{DirBuilder, OpenOptions, OpenOptionsExt};
