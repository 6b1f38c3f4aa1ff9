//! Entries yielded when a directory is listed. An entry remembers the
//! directory it came from and its own name, and can open or remove
//! itself by delegating back into the resolver — there is no path
//! reconstruction.

use vstd::prelude::*;

use crate::dir::{
    spec_metadata, spec_open_dir, spec_open_with, spec_opts_read, spec_remove_dir,
    spec_remove_file, spec_symlink_metadata, Dir,
};
use crate::error::FsError;
use crate::file::File;
use crate::fs::{spec_is_dir, FsState};
use crate::metadata::Metadata;
use crate::open_options::OpenOptions;
use crate::resolve::LeafMode;

verus! {

/// The mathematical form of a directory entry: the directory listed,
/// and the bare name found in it.
#[verifier::ext_equal]
pub struct SpecDirEntry {
    pub dir: usize,
    pub name: Seq<char>,
}

/// One entry of a listed directory.
pub struct DirEntry {
    pub(crate) dir: usize,
    pub(crate) name: String,
}

impl View for DirEntry {
    type V = SpecDirEntry;

    closed spec fn view(&self) -> SpecDirEntry {
        SpecDirEntry { dir: self.dir, name: self.name@ }
    }
}

impl DirEntry {
    pub(crate) fn new(dir: usize, name: String) -> (r: DirEntry)
        ensures
            r@ == (SpecDirEntry { dir, name: name@ }),
    {
        DirEntry { dir, name }
    }

    /// Whether the entry's directory is a directory of the given store.
    pub open spec fn valid_in(&self, fs: &FsState) -> bool {
        spec_is_dir(fs@, self@.dir)
    }

    /// The bare file name of this entry, with no leading path.
    pub fn file_name(&self) -> (r: String)
        ensures
            r@ == self@.name,
    {
        self.name.clone()
    }

    /// Opens this entry read-only as a file.
    pub fn open(&self, fs: &mut FsState) -> (r: Result<File, FsError>)
        requires
            old(fs).wf(),
            self.valid_in(old(fs)),
        ensures
            final(fs).wf(),
            final(fs)@ == old(fs)@,
            match r {
                Ok(f) => spec_open_with(old(fs)@, self@.dir, self@.name, spec_opts_read()) matches Ok(
                    p,
                ) && f.id() == p.1,
                Err(e) => spec_open_with(old(fs)@, self@.dir, self@.name, spec_opts_read()) matches Err(
                    k,
                ) && e.kind == k,
            },
    {
        Dir::from_node(self.dir).open(fs, self.name.as_str())
    }

    /// Opens this entry as a file with the given options.
    pub fn open_with(&self, fs: &mut FsState, options: &OpenOptions) -> (r: Result<File, FsError>)
        requires
            old(fs).wf(),
            self.valid_in(old(fs)),
        ensures
            final(fs).wf(),
            match r {
                Ok(f) => spec_open_with(old(fs)@, self@.dir, self@.name, *options) matches Ok(p)
                    && final(fs)@ == p.0 && f.id() == p.1,
                Err(e) => (spec_open_with(old(fs)@, self@.dir, self@.name, *options) matches Err(
                    k,
                ) && e.kind == k) && final(fs)@ == old(fs)@,
            },
    {
        Dir::from_node(self.dir).open_with(fs, self.name.as_str(), options)
    }

    /// Opens this entry as a directory, following a symlink.
    pub fn open_dir(&self, fs: &FsState) -> (r: Result<Dir, FsError>)
        requires
            fs.wf(),
            self.valid_in(fs),
        ensures
            match r {
                Ok(d) => spec_open_dir(fs@, self@.dir, self@.name, LeafMode::Follow) matches Ok(
                    n,
                ) && n == d.id() && d.valid_in(fs),
                Err(e) => spec_open_dir(fs@, self@.dir, self@.name, LeafMode::Follow) matches Err(
                    k,
                ) && e.kind == k,
            },
    {
        Dir::from_node(self.dir).open_dir(fs, self.name.as_str())
    }

    /// Removes this entry as a file.
    pub fn remove_file(&self, fs: &mut FsState) -> (r: Result<(), FsError>)
        requires
            old(fs).wf(),
            self.valid_in(old(fs)),
        ensures
            final(fs).wf(),
            match r {
                Ok(u) => spec_remove_file(old(fs)@, self@.dir, self@.name) matches Ok(f2)
                    && final(fs)@ == f2,
                Err(e) => (spec_remove_file(old(fs)@, self@.dir, self@.name) matches Err(k)
                    && e.kind == k) && final(fs)@ == old(fs)@,
            },
    {
        Dir::from_node(self.dir).remove_file(fs, self.name.as_str())
    }

    /// Removes this entry as an empty directory.
    pub fn remove_dir(&self, fs: &mut FsState) -> (r: Result<(), FsError>)
        requires
            old(fs).wf(),
            self.valid_in(old(fs)),
        ensures
            final(fs).wf(),
            match r {
                Ok(u) => spec_remove_dir(old(fs)@, self@.dir, self@.name) matches Ok(f2) && final(fs)@ == f2,
                Err(e) => (spec_remove_dir(old(fs)@, self@.dir, self@.name) matches Err(k)
                    && e.kind == k) && final(fs)@ == old(fs)@,
            },
    {
        Dir::from_node(self.dir).remove_dir(fs, self.name.as_str())
    }

    /// The metadata of what this entry points at, following a symlink.
    pub fn metadata(&self, fs: &FsState) -> (r: Result<Metadata, FsError>)
        requires
            fs.wf(),
            self.valid_in(fs),
        ensures
            match r {
                Ok(m) => spec_metadata(fs@, self@.dir, self@.name) matches Ok(sm) && sm == m,
                Err(e) => spec_metadata(fs@, self@.dir, self@.name) matches Err(k) && e.kind == k,
            },
    {
        Dir::from_node(self.dir).metadata(fs, self.name.as_str())
    }

    /// The metadata of this entry itself: a symlink reports itself.
    pub fn symlink_metadata(&self, fs: &FsState) -> (r: Result<Metadata, FsError>)
        requires
            fs.wf(),
            self.valid_in(fs),
        ensures
            match r {
                Ok(m) => spec_symlink_metadata(fs@, self@.dir, self@.name) matches Ok(sm) && sm
                    == m,
                Err(e) => spec_symlink_metadata(fs@, self@.dir, self@.name) matches Err(k)
                    && e.kind == k,
            },
    {
        Dir::from_node(self.dir).symlink_metadata(fs, self.name.as_str())
    }
}

/// The entries of one directory listing, in the directory's own order.
pub struct ReadDir {
    pub(crate) entries: Vec<DirEntry>,
}

impl View for ReadDir {
    type V = Seq<SpecDirEntry>;

    closed spec fn view(&self) -> Seq<SpecDirEntry> {
        self.entries.deep_view()
    }
}

impl DeepView for DirEntry {
    type V = SpecDirEntry;

    open spec fn deep_view(&self) -> SpecDirEntry {
        self.view()
    }
}

impl ReadDir {
    pub(crate) fn from_entries(entries: Vec<DirEntry>) -> (r: ReadDir)
        ensures
            r@ == entries.deep_view(),
    {
        ReadDir { entries }
    }

    /// How many entries are left.
    pub fn len(&self) -> (r: usize)
        ensures
            r == self@.len(),
    {
        self.entries.len()
    }

    /// Hands out the next entry, front to back.
    pub fn next_entry(&mut self) -> (r: Option<DirEntry>)
        ensures
            old(self)@.len() == 0 ==> r is None && final(self)@ == old(self)@,
            old(self)@.len() > 0 ==> (r matches Some(e) && e@ == old(self)@[0] && final(self)@
                == old(self)@.drop_first()),
    {
        if self.entries.len() == 0 {
            return None;
        }
        let ghost pre = self.entries.deep_view();
        let e = self.entries.remove(0);
        proof {
            assert(self.entries.deep_view() =~= pre.drop_first());
        }
        Some(e)
    }
}

} // verus!
