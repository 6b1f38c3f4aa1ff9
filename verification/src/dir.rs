//! The directory capability handle and its operation surface. Every
//! operation takes the store and a path relative to this handle; the
//! resolver confines the walk to the subtree below the handle.

use vstd::prelude::*;

use crate::error::{FsError, FsErrorKind};
use crate::file::File;
use crate::fs::{
    Entry,
    find_entry, link_existing, link_new_node, set_file, spec_entries_of, spec_is_dir,
    spec_lookup, spec_remove_entry, spec_replace_entry, unlink_entry, repoint_entry, FsState, Node,
    SpecEntry, SpecNode,
};
use crate::metadata::{spec_metadata_of, FileType, Metadata};
use crate::open_options::{DirBuilder, OpenOptions};
use crate::path::{spec_absolute, Component, SpecComponent};
use crate::resolve::{
    resolve, resolve_parent, spec_resolve, spec_resolve_parent, LeafMode,
};
use vstd::string::StringExecFns;
use vstd::utf8::{decode_utf8, valid_utf8};

verus! {

/// A handle to one directory of a store: the capability to reach what
/// lies below it, and nothing above. Obtainable only from
/// [`FsState::root`] or from resolving a path through another handle;
/// two handles are equal exactly when they denote the same object.
#[derive(Clone, Copy, Debug, PartialEq, Eq, Structural)]
pub struct Dir {
    pub(crate) node: usize,
}

/// What opening a directory at a path yields.
pub open spec fn spec_open_dir(
    fs: Seq<SpecNode>,
    start: usize,
    s: Seq<char>,
    leaf: LeafMode,
) -> Result<usize, FsErrorKind> {
    match spec_resolve(fs, start, s, leaf) {
        Err(k) => Err(k),
        Ok(e) => {
            if spec_is_dir(fs, e.node) {
                Ok(e.node)
            } else {
                Err(FsErrorKind::NotADirectory)
            }
        },
    }
}

/// What a following stat at a path yields.
pub open spec fn spec_metadata(fs: Seq<SpecNode>, start: usize, s: Seq<char>) -> Result<
    Metadata,
    FsErrorKind,
> {
    match spec_resolve(fs, start, s, LeafMode::Follow) {
        Err(k) => Err(k),
        Ok(e) => Ok(spec_metadata_of(fs, e.node)),
    }
}

/// What a non-following stat at a path yields: a symlink in final
/// position is reported itself.
pub open spec fn spec_symlink_metadata(fs: Seq<SpecNode>, start: usize, s: Seq<char>) -> Result<
    Metadata,
    FsErrorKind,
> {
    match spec_resolve(fs, start, s, LeafMode::ReturnSymlink) {
        Err(k) => Err(k),
        Ok(e) => Ok(spec_metadata_of(fs, e.node)),
    }
}

/// What reading a file at a path yields.
pub open spec fn spec_read(fs: Seq<SpecNode>, start: usize, s: Seq<char>) -> Result<
    Seq<u8>,
    FsErrorKind,
> {
    match spec_resolve(fs, start, s, LeafMode::Follow) {
        Err(k) => Err(k),
        Ok(e) => match fs[e.node as int] {
            SpecNode::File { data, .. } => Ok(data),
            SpecNode::Dir { .. } => Err(FsErrorKind::IsADirectory),
            SpecNode::Symlink { .. } => Err(FsErrorKind::InvalidInput),
        },
    }
}

/// What reading a symlink's target text at a path yields: the final
/// component must itself be a symlink, unfollowed.
pub open spec fn spec_read_link(fs: Seq<SpecNode>, start: usize, s: Seq<char>) -> Result<
    Seq<char>,
    FsErrorKind,
> {
    match spec_resolve(fs, start, s, LeafMode::ReturnSymlink) {
        Err(k) => Err(k),
        Ok(e) => match fs[e.node as int] {
            SpecNode::Symlink { target } => Ok(target),
            _ => Err(FsErrorKind::InvalidInput),
        },
    }
}

/// The canonical text of a walked path: the names actually descended,
/// joined by separators.
pub open spec fn spec_join(canon: Seq<Seq<char>>) -> Seq<char>
    decreases canon.len(),
{
    if canon.len() == 0 {
        Seq::empty()
    } else if canon.len() == 1 {
        canon[0]
    } else {
        spec_join(canon.drop_last()) + seq!['/'] + canon.last()
    }
}

/// What canonicalizing a path yields: the normalized relative text of
/// the fully resolved walk — never an absolute path.
pub open spec fn spec_canonicalize(fs: Seq<SpecNode>, start: usize, s: Seq<char>) -> Result<
    Seq<char>,
    FsErrorKind,
> {
    match spec_resolve(fs, start, s, LeafMode::Follow) {
        Err(k) => Err(k),
        Ok(e) => Ok(spec_join(e.canon)),
    }
}

/// The names an entry list carries, in order.
pub open spec fn spec_entry_names(entries: Seq<SpecEntry>) -> Seq<Seq<char>> {
    entries.map_values(|e: SpecEntry| e.name)
}

/// What listing a directory at a path yields: the directory reached,
/// and its entry names in order.
pub open spec fn spec_read_dir(fs: Seq<SpecNode>, start: usize, s: Seq<char>) -> Result<
    (usize, Seq<Seq<char>>),
    FsErrorKind,
> {
    match spec_resolve(fs, start, s, LeafMode::Follow) {
        Err(k) => Err(k),
        Ok(e) => {
            if spec_is_dir(fs, e.node) {
                Ok((e.node, spec_entry_names(spec_entries_of(fs, e.node))))
            } else {
                Err(FsErrorKind::NotADirectory)
            }
        },
    }
}

/// The store after a fresh node is linked under `name` in `dir`: the new
/// node sits at the end of the store, and the directory gains one entry.
pub open spec fn spec_link_new(
    fs: Seq<SpecNode>,
    dir: usize,
    name: Seq<char>,
    node: SpecNode,
) -> Seq<SpecNode> {
    fs.update(
        dir as int,
        SpecNode::Dir {
            entries: spec_entries_of(fs, dir).push(SpecEntry { name, node: fs.len() as usize }),
            mode: fs[dir as int]->Dir_mode,
        },
    ).push(node)
}

/// The store after the entry of `name` is removed from `dir`. The node
/// the entry pointed at stays: handles to it keep working.
pub open spec fn spec_unlink(fs: Seq<SpecNode>, dir: usize, name: Seq<char>) -> Seq<SpecNode> {
    fs.update(
        dir as int,
        SpecNode::Dir {
            entries: spec_remove_entry(spec_entries_of(fs, dir), name),
            mode: fs[dir as int]->Dir_mode,
        },
    )
}

/// What creating one directory at a path yields.
pub open spec fn spec_create_dir(fs: Seq<SpecNode>, start: usize, s: Seq<char>, mode: u32) -> Result<
    Seq<SpecNode>,
    FsErrorKind,
> {
    match spec_resolve_parent(fs, start, s, false) {
        Err(k) => Err(k),
        Ok(p) => {
            if spec_lookup(spec_entries_of(fs, p.0.node), p.1) is Some {
                Err(FsErrorKind::AlreadyExists)
            } else {
                Ok(
                    spec_link_new(
                        fs,
                        p.0.node,
                        p.1,
                        SpecNode::Dir { entries: Seq::empty(), mode },
                    ),
                )
            }
        },
    }
}

/// What creating a directory chain yields, step by step. The walk is the
/// resolver's, but a missing name is created as an empty directory and
/// descended into. Whatever was created before a failure stays created,
/// so the store is threaded through: the result is the store as it
/// stands, and the error if the walk stopped.
pub open spec fn spec_create_dir_all_at(
    fs: Seq<SpecNode>,
    stack: Seq<usize>,
    cur: usize,
    comps: Seq<SpecComponent>,
    budget: u32,
    mode: u32,
) -> (Seq<SpecNode>, Option<FsErrorKind>)
    decreases budget, comps.len(),
{
    if comps.len() == 0 {
        (fs, None)
    } else {
        let rest = comps.drop_first();
        match comps[0] {
            SpecComponent::CurDir => spec_create_dir_all_at(fs, stack, cur, rest, budget, mode),
            SpecComponent::ParentDir => {
                if stack.len() == 0 {
                    (fs, Some(FsErrorKind::EscapesRoot))
                } else {
                    spec_create_dir_all_at(
                        fs,
                        stack.drop_last(),
                        stack.last(),
                        rest,
                        budget,
                        mode,
                    )
                }
            },
            SpecComponent::Normal(name) => {
                if !spec_is_dir(fs, cur) {
                    (fs, Some(FsErrorKind::NotADirectory))
                } else {
                    match spec_lookup(spec_entries_of(fs, cur), name) {
                        Some(child) => {
                            if child >= fs.len() {
                                (fs, Some(FsErrorKind::NotFound))
                            } else if fs[child as int] is Symlink {
                                let target = fs[child as int]->Symlink_target;
                                if budget == 0 {
                                    (fs, Some(FsErrorKind::TooManySymlinks))
                                } else if spec_absolute(target) {
                                    (fs, Some(FsErrorKind::EscapesRoot))
                                } else if crate::path::spec_has_nul(target) {
                                    (fs, Some(FsErrorKind::InvalidInput))
                                } else {
                                    let tcomps = crate::path::spec_components(target) + (
                                    if crate::path::spec_trailing(target) {
                                        seq![SpecComponent::CurDir]
                                    } else {
                                        Seq::<SpecComponent>::empty()
                                    });
                                    spec_create_dir_all_at(
                                        fs,
                                        stack,
                                        cur,
                                        tcomps + rest,
                                        (budget - 1) as u32,
                                        mode,
                                    )
                                }
                            } else if fs[child as int] is Dir {
                                spec_create_dir_all_at(
                                    fs,
                                    stack.push(cur),
                                    child,
                                    rest,
                                    budget,
                                    mode,
                                )
                            } else if rest.len() == 0 {
                                (fs, Some(FsErrorKind::AlreadyExists))
                            } else {
                                (fs, Some(FsErrorKind::NotADirectory))
                            }
                        },
                        None => {
                            let fs1 = spec_link_new(
                                fs,
                                cur,
                                name,
                                SpecNode::Dir { entries: Seq::empty(), mode },
                            );
                            spec_create_dir_all_at(
                                fs1,
                                stack.push(cur),
                                fs.len() as usize,
                                rest,
                                budget,
                                mode,
                            )
                        },
                    }
                }
            },
        }
    }
}

/// What creating a directory and all missing parents at a path yields.
pub open spec fn spec_create_dir_all(
    fs: Seq<SpecNode>,
    start: usize,
    s: Seq<char>,
    mode: u32,
) -> (Seq<SpecNode>, Option<FsErrorKind>) {
    if spec_absolute(s) {
        (fs, Some(FsErrorKind::EscapesRoot))
    } else if crate::path::spec_has_nul(s) {
        (fs, Some(FsErrorKind::InvalidInput))
    } else {
        spec_create_dir_all_at(
            fs,
            Seq::empty(),
            start,
            crate::path::spec_components(s),
            crate::resolve::MAX_SYMLINKS,
            mode,
        )
    }
}

/// What removing a file (or a symlink) at a path yields: the final name
/// is never followed, so a symlink itself is unlinked.
pub open spec fn spec_remove_file(fs: Seq<SpecNode>, start: usize, s: Seq<char>) -> Result<
    Seq<SpecNode>,
    FsErrorKind,
> {
    match spec_resolve_parent(fs, start, s, true) {
        Err(k) => Err(k),
        Ok(p) => match spec_lookup(spec_entries_of(fs, p.0.node), p.1) {
            None => Err(FsErrorKind::NotFound),
            Some(child) => {
                if child < fs.len() && fs[child as int] is Dir {
                    Err(FsErrorKind::IsADirectory)
                } else {
                    Ok(spec_unlink(fs, p.0.node, p.1))
                }
            },
        },
    }
}

/// What removing a directory at a path yields: the named directory must
/// be empty; the final name is never followed.
pub open spec fn spec_remove_dir(fs: Seq<SpecNode>, start: usize, s: Seq<char>) -> Result<
    Seq<SpecNode>,
    FsErrorKind,
> {
    match spec_resolve_parent(fs, start, s, false) {
        Err(k) => Err(k),
        Ok(p) => match spec_lookup(spec_entries_of(fs, p.0.node), p.1) {
            None => Err(FsErrorKind::NotFound),
            Some(child) => {
                if !(child < fs.len() && fs[child as int] is Dir) {
                    Err(FsErrorKind::NotADirectory)
                } else if spec_entries_of(fs, child).len() > 0 {
                    Err(FsErrorKind::DirectoryNotEmpty)
                } else {
                    Ok(spec_unlink(fs, p.0.node, p.1))
                }
            },
        },
    }
}

/// What removing a directory and its contents at a path yields: the
/// named directory is unlinked whole. Its nodes stay in the store —
/// handles already held into the subtree keep working — but nothing
/// reaches them by name any more.
pub open spec fn spec_remove_dir_all(fs: Seq<SpecNode>, start: usize, s: Seq<char>) -> Result<
    Seq<SpecNode>,
    FsErrorKind,
> {
    match spec_resolve_parent(fs, start, s, false) {
        Err(k) => Err(k),
        Ok(p) => match spec_lookup(spec_entries_of(fs, p.0.node), p.1) {
            None => Err(FsErrorKind::NotFound),
            Some(child) => {
                if !(child < fs.len() && fs[child as int] is Dir) {
                    Err(FsErrorKind::NotADirectory)
                } else {
                    Ok(spec_unlink(fs, p.0.node, p.1))
                }
            },
        },
    }
}

/// The store after every entry anywhere that points at `node` is
/// removed.
pub open spec fn spec_remove_open_dir(fs: Seq<SpecNode>, node: usize) -> Seq<SpecNode> {
    Seq::new(
        fs.len(),
        |i: int|
            match fs[i] {
                SpecNode::Dir { entries, mode } => SpecNode::Dir {
                    entries: crate::fs::spec_drop_refs(entries, node),
                    mode,
                },
                other => other,
            },
    )
}

/// What renaming yields: the source entry moves to the target directory
/// under the target name. A target entry naming the very same object is
/// a no-op; otherwise a directory may only replace an empty directory,
/// and a non-directory only a non-directory.
pub open spec fn spec_rename(
    fs: Seq<SpecNode>,
    start1: usize,
    from: Seq<char>,
    start2: usize,
    to: Seq<char>,
) -> Result<Seq<SpecNode>, FsErrorKind> {
    match spec_resolve_parent(fs, start1, from, false) {
        Err(k) => Err(k),
        Ok(p1) => match spec_resolve_parent(fs, start2, to, false) {
            Err(k) => Err(k),
            Ok(p2) => {
                let d1 = p1.0.node;
                let n1 = p1.1;
                let d2 = p2.0.node;
                let n2 = p2.1;
                match spec_lookup(spec_entries_of(fs, d1), n1) {
                    None => Err(FsErrorKind::NotFound),
                    Some(src) => match spec_lookup(spec_entries_of(fs, d2), n2) {
                        Some(t) => {
                            if t == src {
                                Ok(fs)
                            } else if fs[src as int] is Dir && !(fs[t as int] is Dir) {
                                Err(FsErrorKind::NotADirectory)
                            } else if fs[src as int] is Dir && spec_entries_of(fs, t).len() > 0 {
                                Err(FsErrorKind::DirectoryNotEmpty)
                            } else if !(fs[src as int] is Dir) && fs[t as int] is Dir {
                                Err(FsErrorKind::IsADirectory)
                            } else {
                                let fs1 = spec_unlink(fs, d1, n1);
                                Ok(
                                    fs1.update(
                                        d2 as int,
                                        SpecNode::Dir {
                                            entries: spec_replace_entry(
                                                spec_entries_of(fs1, d2),
                                                n2,
                                                src,
                                            ),
                                            mode: fs1[d2 as int]->Dir_mode,
                                        },
                                    ),
                                )
                            }
                        },
                        None => {
                            let fs1 = spec_unlink(fs, d1, n1);
                            Ok(
                                fs1.update(
                                    d2 as int,
                                    SpecNode::Dir {
                                        entries: spec_entries_of(fs1, d2).push(
                                            SpecEntry { name: n2, node: src },
                                        ),
                                        mode: fs1[d2 as int]->Dir_mode,
                                    },
                                ),
                            )
                        },
                    },
                }
            },
        },
    }
}

/// What hard-linking yields: the target directory gains an entry that
/// points at the very node the source names. The source is never
/// followed, and a directory cannot be hard-linked.
pub open spec fn spec_hard_link(
    fs: Seq<SpecNode>,
    start1: usize,
    src: Seq<char>,
    start2: usize,
    dst: Seq<char>,
) -> Result<Seq<SpecNode>, FsErrorKind> {
    match spec_resolve_parent(fs, start1, src, true) {
        Err(k) => Err(k),
        Ok(p1) => match spec_resolve_parent(fs, start2, dst, true) {
            Err(k) => Err(k),
            Ok(p2) => match spec_lookup(spec_entries_of(fs, p1.0.node), p1.1) {
                None => Err(FsErrorKind::NotFound),
                Some(s_node) => {
                    if s_node < fs.len() && fs[s_node as int] is Dir {
                        Err(FsErrorKind::PermissionDenied)
                    } else if spec_lookup(spec_entries_of(fs, p2.0.node), p2.1) is Some {
                        Err(FsErrorKind::AlreadyExists)
                    } else {
                        Ok(
                            fs.update(
                                p2.0.node as int,
                                SpecNode::Dir {
                                    entries: spec_entries_of(fs, p2.0.node).push(
                                        SpecEntry { name: p2.1, node: s_node },
                                    ),
                                    mode: fs[p2.0.node as int]->Dir_mode,
                                },
                            ),
                        )
                    }
                },
            },
        },
    }
}

/// What creating a symlink yields: a new symlink node carrying the
/// literal target text, linked under the final name of `link`. The
/// target text is stored untouched — an absolute target is allowed here
/// and rejected only when something later resolves through it.
pub open spec fn spec_symlink(
    fs: Seq<SpecNode>,
    start: usize,
    original: Seq<char>,
    link: Seq<char>,
) -> Result<Seq<SpecNode>, FsErrorKind> {
    if crate::path::spec_has_nul(original) {
        Err(FsErrorKind::InvalidInput)
    } else if original.len() == 0 {
        Err(FsErrorKind::InvalidInput)
    } else {
        match spec_resolve_parent(fs, start, link, true) {
            Err(k) => Err(k),
            Ok(p) => {
                if spec_lookup(spec_entries_of(fs, p.0.node), p.1) is Some {
                    Err(FsErrorKind::AlreadyExists)
                } else {
                    Ok(spec_link_new(fs, p.0.node, p.1, SpecNode::Symlink { target: original }))
                }
            },
        }
    }
}

/// What opening a file from a walk state yields. The path up to the
/// final name is resolved following symlinks; the final name is looked
/// up unfollowed, so that a missing file can be created in place, and a
/// symlink there restarts this very resolution on its target text —
/// from the directory holding the link, bounded by `hops`. A path whose
/// true final component is not a plain name can only denote a
/// directory, which no file open accepts.
pub open spec fn spec_open_at(
    fs: Seq<SpecNode>,
    stack: Seq<usize>,
    canon: Seq<Seq<char>>,
    cur: usize,
    comps: Seq<SpecComponent>,
    hops: u32,
    opts: OpenOptions,
) -> Result<(Seq<SpecNode>, usize), FsErrorKind>
    decreases hops,
{
    if comps.len() == 0 || !(comps.last() is Normal) {
        match crate::resolve::spec_walk(
            fs,
            stack,
            canon,
            cur,
            comps,
            crate::resolve::MAX_SYMLINKS,
            LeafMode::Follow,
        ) {
            Err(k) => Err(k),
            Ok(e) => Err(FsErrorKind::IsADirectory),
        }
    } else {
        let name = comps.last()->Normal_0;
        match crate::resolve::spec_walk(
            fs,
            stack,
            canon,
            cur,
            comps.drop_last(),
            crate::resolve::MAX_SYMLINKS,
            LeafMode::Follow,
        ) {
            Err(k) => Err(k),
            Ok(e) => {
                if !spec_is_dir(fs, e.node) {
                    Err(FsErrorKind::NotADirectory)
                } else {
                    match spec_lookup(spec_entries_of(fs, e.node), name) {
                        None => {
                            if opts.create || opts.create_new {
                                Ok(
                                    (
                                        spec_link_new(
                                            fs,
                                            e.node,
                                            name,
                                            SpecNode::File {
                                                data: Seq::empty(),
                                                mode: opts.ext.mode,
                                            },
                                        ),
                                        fs.len() as usize,
                                    ),
                                )
                            } else {
                                Err(FsErrorKind::NotFound)
                            }
                        },
                        Some(child) => {
                            if child >= fs.len() {
                                Err(FsErrorKind::NotFound)
                            } else if fs[child as int] is Symlink {
                                let target = fs[child as int]->Symlink_target;
                                if hops == 0 {
                                    Err(FsErrorKind::TooManySymlinks)
                                } else if spec_absolute(target) {
                                    Err(FsErrorKind::EscapesRoot)
                                } else if crate::path::spec_has_nul(target) {
                                    Err(FsErrorKind::InvalidInput)
                                } else {
                                    let tcomps = crate::path::spec_components(target) + (
                                    if crate::path::spec_trailing(target) {
                                        seq![SpecComponent::CurDir]
                                    } else {
                                        Seq::<SpecComponent>::empty()
                                    });
                                    spec_open_at(
                                        fs,
                                        e.stack,
                                        e.canon,
                                        e.node,
                                        tcomps,
                                        (hops - 1) as u32,
                                        opts,
                                    )
                                }
                            } else if fs[child as int] is Dir {
                                Err(FsErrorKind::IsADirectory)
                            } else if opts.create_new {
                                Err(FsErrorKind::AlreadyExists)
                            } else if opts.truncate {
                                Ok(
                                    (
                                        fs.update(
                                            child as int,
                                            SpecNode::File {
                                                data: Seq::empty(),
                                                mode: fs[child as int]->File_mode,
                                            },
                                        ),
                                        child,
                                    ),
                                )
                            } else {
                                Ok((fs, child))
                            }
                        },
                    }
                }
            },
        }
    }
}

/// What opening a file at a path yields: inconsistent flags are
/// rejected first, then an absolute path, then an embedded NUL; the
/// rest is the final-name resolution of `spec_open_at` with a full hop
/// budget.
pub open spec fn spec_open_with(
    fs: Seq<SpecNode>,
    start: usize,
    s: Seq<char>,
    opts: OpenOptions,
) -> Result<(Seq<SpecNode>, usize), FsErrorKind> {
    if !opts.spec_flags_ok() {
        Err(FsErrorKind::InvalidInput)
    } else if spec_absolute(s) {
        Err(FsErrorKind::EscapesRoot)
    } else if crate::path::spec_has_nul(s) {
        Err(FsErrorKind::InvalidInput)
    } else {
        let comps = crate::path::spec_components(s) + (if crate::path::spec_trailing(s) {
            seq![SpecComponent::CurDir]
        } else {
            Seq::<SpecComponent>::empty()
        });
        spec_open_at(
            fs,
            Seq::empty(),
            Seq::empty(),
            start,
            comps,
            crate::resolve::MAX_SYMLINKS,
            opts,
        )
    }
}

/// The options `open` uses: read-only.
pub open spec fn spec_opts_read() -> OpenOptions {
    OpenOptions {
        read: true,
        write: false,
        append: false,
        truncate: false,
        create: false,
        create_new: false,
        ext: crate::open_options::OpenOptionsExt { mode: 0o666u32, custom_flags: 0i32 },
    }
}

/// The options `create` and `write` use: write, create, truncate.
pub open spec fn spec_opts_create() -> OpenOptions {
    OpenOptions {
        read: false,
        write: true,
        append: false,
        truncate: true,
        create: true,
        create_new: false,
        ext: crate::open_options::OpenOptionsExt { mode: 0o666u32, custom_flags: 0i32 },
    }
}

/// What writing a whole file at a path yields: the file is opened with
/// the `spec_opts_create` options, then holds exactly the given bytes.
pub open spec fn spec_write(fs: Seq<SpecNode>, start: usize, s: Seq<char>, bytes: Seq<u8>) -> Result<
    Seq<SpecNode>,
    FsErrorKind,
> {
    match spec_open_with(fs, start, s, spec_opts_create()) {
        Err(k) => Err(k),
        Ok(p) => Ok(
            p.0.update(
                p.1 as int,
                SpecNode::File { data: bytes, mode: p.0[p.1 as int]->File_mode },
            ),
        ),
    }
}

/// What copying yields: the source must resolve to a file, whose bytes
/// and permission bits the target file receives; the count of bytes
/// copied is returned.
pub open spec fn spec_copy(
    fs: Seq<SpecNode>,
    start1: usize,
    from: Seq<char>,
    start2: usize,
    to: Seq<char>,
) -> Result<(Seq<SpecNode>, u64), FsErrorKind> {
    match spec_resolve(fs, start1, from, LeafMode::Follow) {
        Err(k) => Err(k),
        Ok(e) => match fs[e.node as int] {
            SpecNode::File { data, mode } => match spec_open_with(
                fs,
                start2,
                to,
                spec_opts_create(),
            ) {
                Err(k) => Err(k),
                Ok(p) => Ok(
                    (
                        p.0.update(p.1 as int, SpecNode::File { data, mode }),
                        data.len() as u64,
                    ),
                ),
            },
            SpecNode::Dir { .. } => Err(FsErrorKind::IsADirectory),
            SpecNode::Symlink { .. } => Err(FsErrorKind::InvalidInput),
        },
    }
}

/// Resolves the final name of an open and applies the creation,
/// truncation and existence rules of the given options.
fn open_at(
    fs: &mut FsState,
    stack: Vec<usize>,
    canon: Vec<String>,
    cur: usize,
    comps: Vec<Component>,
    hops: u32,
    opts: &OpenOptions,
) -> (r: Result<usize, FsError>)
    requires
        old(fs).wf(),
        spec_is_dir(old(fs)@, cur),
        forall|i: int| 0 <= i < stack@.len() ==> spec_is_dir(old(fs)@, #[trigger] stack@[i]),
        stack@.len() == canon@.len(),
        forall|j: int|
            0 <= j < comps.deep_view().len() && (#[trigger] comps.deep_view()[j]) is Normal
                ==> crate::path::spec_valid_name(comps.deep_view()[j]->Normal_0),
    ensures
        final(fs).wf(),
        match r {
            Ok(n) => spec_open_at(
                old(fs)@,
                stack@,
                canon.deep_view(),
                cur,
                comps.deep_view(),
                hops,
                *opts,
            ) matches Ok(p) && final(fs)@ == p.0 && n == p.1 && n < final(fs)@.len() && final(fs)@[n as int] is File,
            Err(e) => (spec_open_at(
                old(fs)@,
                stack@,
                canon.deep_view(),
                cur,
                comps.deep_view(),
                hops,
                *opts,
            ) matches Err(k) && e.kind == k) && final(fs)@ == old(fs)@,
        },
    decreases hops,
{
    let mut comps = comps;
    let last_is_normal = comps.len() > 0 && matches!(&comps[comps.len() - 1], Component::Normal(
        _,
    ));
    if !last_is_normal {
        let r = crate::resolve::walk_from(
            fs,
            stack,
            canon,
            cur,
            comps,
            crate::resolve::MAX_SYMLINKS,
            LeafMode::Follow,
        );
        return match r {
            Ok(_) => Err(FsError::new(FsErrorKind::IsADirectory)),
            Err(e) => Err(e),
        };
    }
    let ghost full = comps.deep_view();
    let last = comps.pop().unwrap();
    let name = match last {
        Component::Normal(n) => n,
        _ => vstd::pervasive::unreached(),
    };
    proof {
        assert(comps.deep_view() =~= full.drop_last());
        assert(full.last() == SpecComponent::Normal(name@));
    }
    let end = match crate::resolve::walk_from(
        fs,
        stack,
        canon,
        cur,
        comps,
        crate::resolve::MAX_SYMLINKS,
        LeafMode::Follow,
    ) {
        Ok(e) => e,
        Err(e) => { return Err(e); },
    };
    match &fs.nodes[end.node] {
        Node::Dir { .. } => {},
        _ => { return Err(FsError::new(FsErrorKind::NotADirectory)); },
    }
    match find_entry(fs, end.node, &name) {
        None => {
            if opts.create || opts.create_new {
                let ghost nv = name@;
                let idx = link_new_node(
                    fs,
                    end.node,
                    name,
                    Node::File { data: Vec::new(), mode: opts.ext.mode },
                );
                proof {
                    assert(fs@ =~~= spec_link_new(
                        old(fs)@,
                        end.node,
                        nv,
                        SpecNode::File { data: Seq::empty(), mode: opts.ext.mode },
                    ));
                }
                Ok(idx)
            } else {
                Err(FsError::new(FsErrorKind::NotFound))
            }
        },
        Some(child) => {
            proof {
                crate::fs::lemma_lookup_valid(fs@, end.node, name@);
            }
            let mut target_text: Option<String> = None;
            match &fs.nodes[child] {
                Node::Symlink { target } => {
                    target_text = Some(target.clone());
                },
                Node::Dir { .. } => { return Err(FsError::new(FsErrorKind::IsADirectory)); },
                Node::File { .. } => {},
            }
            match target_text {
                Some(target) => {
                    if hops == 0 {
                        return Err(FsError::new(FsErrorKind::TooManySymlinks));
                    }
                    if target.as_str().unicode_len() > 0 && target.as_str().get_char(0) == '/' {
                        return Err(FsError::new(FsErrorKind::EscapesRoot));
                    }
                    let tparsed = match crate::path::parse_path(target.as_str()) {
                        Ok(p) => p,
                        Err(e) => { return Err(e); },
                    };
                    proof {
                        crate::path::lemma_components_valid(target@);
                    }
                    let ghost tspec = crate::path::spec_components(target@) + (
                    if crate::path::spec_trailing(target@) {
                        seq![SpecComponent::CurDir]
                    } else {
                        Seq::<SpecComponent>::empty()
                    });
                    let mut tc = tparsed.components;
                    let ghost base_dv = tc.deep_view();
                    if tparsed.trailing {
                        tc.push(Component::CurDir);
                        proof {
                            assert(tc.deep_view() =~= base_dv.push(SpecComponent::CurDir));
                        }
                    }
                    proof {
                        assert(tc.deep_view() =~= tspec);
                    }
                    open_at(fs, end.stack, end.canon, end.node, tc, hops - 1, opts)
                },
                None => {
                    if opts.create_new {
                        return Err(FsError::new(FsErrorKind::AlreadyExists));
                    }
                    if opts.truncate {
                        let mode = match &fs.nodes[child] {
                            Node::File { mode, .. } => *mode,
                            _ => vstd::pervasive::unreached(),
                        };
                        set_file(fs, child, Vec::new(), mode);
                        Ok(child)
                    } else {
                        Ok(child)
                    }
                },
            }
        },
    }
}

/// An open that neither creates nor truncates leaves the store as it
/// was.
proof fn lemma_open_at_read_only(
    fs: Seq<SpecNode>,
    stack: Seq<usize>,
    canon: Seq<Seq<char>>,
    cur: usize,
    comps: Seq<SpecComponent>,
    hops: u32,
    opts: OpenOptions,
)
    requires
        !opts.create,
        !opts.create_new,
        !opts.truncate,
    ensures
        spec_open_at(fs, stack, canon, cur, comps, hops, opts) matches Ok(p) ==> p.0 == fs,
    decreases hops,
{
    if comps.len() > 0 && comps.last() is Normal {
        let name = comps.last()->Normal_0;
        match crate::resolve::spec_walk(
            fs,
            stack,
            canon,
            cur,
            comps.drop_last(),
            crate::resolve::MAX_SYMLINKS,
            LeafMode::Follow,
        ) {
            Err(_) => {},
            Ok(e) => {
                if spec_is_dir(fs, e.node) {
                    match spec_lookup(spec_entries_of(fs, e.node), name) {
                        None => {},
                        Some(child) => {
                            if child < fs.len() && fs[child as int] is Symlink && hops > 0 {
                                let target = fs[child as int]->Symlink_target;
                                if !spec_absolute(target) && !crate::path::spec_has_nul(target) {
                                    let tcomps = crate::path::spec_components(target) + (
                                    if crate::path::spec_trailing(target) {
                                        seq![SpecComponent::CurDir]
                                    } else {
                                        Seq::<SpecComponent>::empty()
                                    });
                                    lemma_open_at_read_only(
                                        fs,
                                        e.stack,
                                        e.canon,
                                        e.node,
                                        tcomps,
                                        (hops - 1) as u32,
                                        opts,
                                    );
                                }
                            }
                        },
                    }
                }
            },
        }
    }
}

/// Opening read-only leaves the store as it was.
proof fn lemma_open_read_only(fs: Seq<SpecNode>, start: usize, s: Seq<char>)
    ensures
        spec_open_with(fs, start, s, spec_opts_read()) matches Ok(p) ==> p.0 == fs,
{
    if !spec_absolute(s) && !crate::path::spec_has_nul(s) {
        let comps = crate::path::spec_components(s) + (if crate::path::spec_trailing(s) {
            seq![SpecComponent::CurDir]
        } else {
            Seq::<SpecComponent>::empty()
        });
        lemma_open_at_read_only(
            fs,
            Seq::empty(),
            Seq::empty(),
            start,
            comps,
            crate::resolve::MAX_SYMLINKS,
            spec_opts_read(),
        );
    }
}

/// Whether the string holds a NUL character.
fn str_has_nul(s: &str) -> (r: bool)
    ensures
        r == crate::path::spec_has_nul(s@),
{
    let n = s.unicode_len();
    let mut i: usize = 0;
    while i < n
        invariant
            i <= n,
            n == s@.len(),
            forall|j: int| 0 <= j < i ==> s@[j] != '\0',
        decreases n - i,
    {
        if s.get_char(i) == '\0' {
            return true;
        }
        i += 1;
    }
    false
}

/// Relies on `String::from_utf8`: it succeeds exactly on the byte
/// sequences that are valid UTF-8, and then decodes them.
#[verifier::external_body]
fn bytes_to_string(v: Vec<u8>) -> (r: Option<String>)
    ensures
        match r {
            Some(s) => valid_utf8(v@) && s@ == decode_utf8(v@),
            None => !valid_utf8(v@),
        },
{
    match String::from_utf8(v) {
        Ok(s) => Some(s),
        Err(_) => None,
    }
}

impl FsState {
    /// The handle to this store's root directory: the single ambient
    /// entry point of the capability model. Everything else is reached
    /// through it.
    pub fn root(&self) -> (r: Dir)
        requires
            self.wf(),
        ensures
            r.id() == 0,
            r.valid_in(self),
    {
        Dir { node: 0 }
    }
}

impl Dir {
    /// The identity of the object this handle denotes.
    pub closed spec fn id(&self) -> usize {
        self.node
    }

    /// Whether this handle denotes a directory of the given store.
    pub open spec fn valid_in(&self, fs: &FsState) -> bool {
        spec_is_dir(fs@, self.id())
    }

    pub(crate) fn from_node(node: usize) -> (r: Dir)
        ensures
            r.id() == node,
    {
        Dir { node }
    }

    /// A second handle to the same directory, with its own lifetime.
    pub fn try_clone(&self) -> (r: Result<Dir, FsError>)
        ensures
            r matches Ok(d) && d.id() == self.id(),
    {
        Ok(Dir { node: self.node })
    }

    /// Opens the directory at `path`, following a symlink in final
    /// position.
    pub fn open_dir(&self, fs: &FsState, path: &str) -> (r: Result<Dir, FsError>)
        requires
            fs.wf(),
            self.valid_in(fs),
        ensures
            match r {
                Ok(d) => spec_open_dir(fs@, self.id(), path@, LeafMode::Follow) matches Ok(n)
                    && n == d.id() && d.valid_in(fs),
                Err(e) => spec_open_dir(fs@, self.id(), path@, LeafMode::Follow) matches Err(k)
                    && e.kind == k,
            },
            spec_absolute(path@) ==> (r matches Err(e) && e.kind == FsErrorKind::EscapesRoot),
    {
        let end = match resolve(fs, self.node, path, LeafMode::Follow) {
            Ok(e) => e,
            Err(e) => { return Err(e); },
        };
        match &fs.nodes[end.node] {
            Node::Dir { .. } => Ok(Dir { node: end.node }),
            _ => Err(FsError::new(FsErrorKind::NotADirectory)),
        }
    }

    /// Opens the directory at `path`, refusing to follow a symlink in
    /// final position. A trailing `/`, `/.` or `/..` makes the true
    /// final component a `.` or `..`, so a symlink before it is still
    /// followed.
    pub fn open_dir_nofollow(&self, fs: &FsState, path: &str) -> (r: Result<Dir, FsError>)
        requires
            fs.wf(),
            self.valid_in(fs),
        ensures
            match r {
                Ok(d) => spec_open_dir(fs@, self.id(), path@, LeafMode::RefuseSymlink) matches Ok(
                    n,
                ) && n == d.id() && d.valid_in(fs),
                Err(e) => spec_open_dir(fs@, self.id(), path@, LeafMode::RefuseSymlink) matches Err(
                    k,
                ) && e.kind == k,
            },
            spec_absolute(path@) ==> (r matches Err(e) && e.kind == FsErrorKind::EscapesRoot),
    {
        let end = match resolve(fs, self.node, path, LeafMode::RefuseSymlink) {
            Ok(e) => e,
            Err(e) => { return Err(e); },
        };
        match &fs.nodes[end.node] {
            Node::Dir { .. } => Ok(Dir { node: end.node }),
            _ => Err(FsError::new(FsErrorKind::NotADirectory)),
        }
    }

    /// The metadata of the object at `path`, following a final symlink.
    pub fn metadata(&self, fs: &FsState, path: &str) -> (r: Result<Metadata, FsError>)
        requires
            fs.wf(),
            self.valid_in(fs),
        ensures
            match r {
                Ok(m) => spec_metadata(fs@, self.id(), path@) matches Ok(sm) && sm == m,
                Err(e) => spec_metadata(fs@, self.id(), path@) matches Err(k) && e.kind == k,
            },
            spec_absolute(path@) ==> (r matches Err(e) && e.kind == FsErrorKind::EscapesRoot),
    {
        let end = match resolve(fs, self.node, path, LeafMode::Follow) {
            Ok(e) => e,
            Err(e) => { return Err(e); },
        };
        Ok(metadata_of_node(fs, end.node))
    }

    /// The metadata of the object at `path`, not following a final
    /// symlink: a symlink reports itself.
    pub fn symlink_metadata(&self, fs: &FsState, path: &str) -> (r: Result<Metadata, FsError>)
        requires
            fs.wf(),
            self.valid_in(fs),
        ensures
            match r {
                Ok(m) => spec_symlink_metadata(fs@, self.id(), path@) matches Ok(sm) && sm
                    == m,
                Err(e) => spec_symlink_metadata(fs@, self.id(), path@) matches Err(k) && e.kind
                    == k,
            },
            spec_absolute(path@) ==> (r matches Err(e) && e.kind == FsErrorKind::EscapesRoot),
    {
        let end = match resolve(fs, self.node, path, LeafMode::ReturnSymlink) {
            Ok(e) => e,
            Err(e) => { return Err(e); },
        };
        Ok(metadata_of_node(fs, end.node))
    }

    /// Whether `path` points at an existing object. Resolution failures
    /// of any kind read as `false`, never as an error.
    pub fn exists_at(&self, fs: &FsState, path: &str) -> (r: bool)
        requires
            fs.wf(),
            self.valid_in(fs),
        ensures
            r == spec_metadata(fs@, self.id(), path@) is Ok,
    {
        match self.metadata(fs, path) {
            Ok(_) => true,
            Err(_) => false,
        }
    }

    /// Whether `path` points at a regular file. Resolution failures read
    /// as `false`.
    pub fn is_file(&self, fs: &FsState, path: &str) -> (r: bool)
        requires
            fs.wf(),
            self.valid_in(fs),
        ensures
            r == (spec_metadata(fs@, self.id(), path@) matches Ok(m) && m.ftype
                == FileType::File),
    {
        match self.metadata(fs, path) {
            Ok(m) => m.is_file(),
            Err(_) => false,
        }
    }

    /// Whether `path` points at a directory, following symlinks; a
    /// broken symlink reads as `false`.
    pub fn is_dir(&self, fs: &FsState, path: &str) -> (r: bool)
        requires
            fs.wf(),
            self.valid_in(fs),
        ensures
            r == (spec_metadata(fs@, self.id(), path@) matches Ok(m) && m.ftype == FileType::Dir),
    {
        match self.metadata(fs, path) {
            Ok(m) => m.is_dir(),
            Err(_) => false,
        }
    }

    /// The bytes of the file at `path`.
    pub fn read(&self, fs: &FsState, path: &str) -> (r: Result<Vec<u8>, FsError>)
        requires
            fs.wf(),
            self.valid_in(fs),
        ensures
            match r {
                Ok(data) => spec_read(fs@, self.id(), path@) matches Ok(d) && d == data@,
                Err(e) => spec_read(fs@, self.id(), path@) matches Err(k) && e.kind == k,
            },
            spec_absolute(path@) ==> (r matches Err(e) && e.kind == FsErrorKind::EscapesRoot),
    {
        let end = match resolve(fs, self.node, path, LeafMode::Follow) {
            Ok(e) => e,
            Err(e) => { return Err(e); },
        };
        match &fs.nodes[end.node] {
            Node::File { data, .. } => Ok(vstd::slice::slice_to_vec(data.as_slice())),
            Node::Dir { .. } => Err(FsError::new(FsErrorKind::IsADirectory)),
            Node::Symlink { .. } => Err(FsError::new(FsErrorKind::InvalidInput)),
        }
    }

    /// The contents of the file at `path`, decoded as UTF-8; bytes that
    /// are not valid UTF-8 are an `InvalidUtf8` error.
    pub fn read_to_string(&self, fs: &FsState, path: &str) -> (r: Result<String, FsError>)
        requires
            fs.wf(),
            self.valid_in(fs),
        ensures
            match r {
                Ok(text) => spec_read(fs@, self.id(), path@) matches Ok(data) && valid_utf8(data)
                    && text@ == decode_utf8(data),
                Err(e) => match spec_read(fs@, self.id(), path@) {
                    Ok(data) => !valid_utf8(data) && e.kind == FsErrorKind::InvalidUtf8,
                    Err(k) => e.kind == k,
                },
            },
            spec_absolute(path@) ==> (r matches Err(e) && e.kind == FsErrorKind::EscapesRoot),
    {
        let data = match self.read(fs, path) {
            Ok(d) => d,
            Err(e) => { return Err(e); },
        };
        match bytes_to_string(data) {
            Some(s) => Ok(s),
            None => Err(FsError::new(FsErrorKind::InvalidUtf8)),
        }
    }

    /// The literal target text of the symlink at `path`. Anything that
    /// is not a symlink is an `InvalidInput` error.
    pub fn read_link(&self, fs: &FsState, path: &str) -> (r: Result<String, FsError>)
        requires
            fs.wf(),
            self.valid_in(fs),
        ensures
            match r {
                Ok(text) => spec_read_link(fs@, self.id(), path@) matches Ok(t) && t == text@,
                Err(e) => spec_read_link(fs@, self.id(), path@) matches Err(k) && e.kind == k,
            },
            spec_absolute(path@) ==> (r matches Err(e) && e.kind == FsErrorKind::EscapesRoot),
    {
        let end = match resolve(fs, self.node, path, LeafMode::ReturnSymlink) {
            Ok(e) => e,
            Err(e) => { return Err(e); },
        };
        match &fs.nodes[end.node] {
            Node::Symlink { target } => Ok(target.clone()),
            _ => Err(FsError::new(FsErrorKind::InvalidInput)),
        }
    }

    /// The canonical relative form of `path`: the names the fully
    /// resolved walk actually descended, joined by `/`. Never an
    /// absolute path.
    #[verifier::loop_isolation(false)]
    pub fn canonicalize(&self, fs: &FsState, path: &str) -> (r: Result<String, FsError>)
        requires
            fs.wf(),
            self.valid_in(fs),
        ensures
            match r {
                Ok(text) => spec_canonicalize(fs@, self.id(), path@) matches Ok(t) && t
                    == text@,
                Err(e) => spec_canonicalize(fs@, self.id(), path@) matches Err(k) && e.kind == k,
            },
            r matches Ok(text) ==> !spec_absolute(text@),
            spec_absolute(path@) ==> (r matches Err(e) && e.kind == FsErrorKind::EscapesRoot),
    {
        proof {
            crate::laws::lemma_canonicalize_relative(fs@, self.id(), path@);
        }
        let end = match resolve(fs, self.node, path, LeafMode::Follow) {
            Ok(e) => e,
            Err(e) => { return Err(e); },
        };
        let canon = end.canon;
        let ghost cv = canon.deep_view();
        let n = canon.len();
        let mut out = String::new();
        proof {
            assert(cv.take(0) =~= Seq::<Seq<char>>::empty());
        }
        let mut k: usize = 0;
        while k < n
            invariant
                k <= n,
                out@ == spec_join(cv.take(k as int)),
            decreases n - k,
        {
            if k > 0 {
                out.append("/");
            }
            out.append(canon[k].as_str());
            proof {
                assert(cv.take(k + 1).drop_last() =~= cv.take(k as int));
                assert(cv.take(k + 1).last() == cv[k as int]);
                if k == 0 {
                    assert(spec_join(cv.take(1)) == cv[0]) by {
                        reveal_strlit("/");
                    }
                    assert(out@ =~= cv[0]);
                } else {
                    assert(out@ =~= spec_join(cv.take(k as int)) + "/"@ + cv[k as int]);
                    assert("/"@ =~= seq!['/']) by {
                        reveal_strlit("/");
                    }
                }
            }
            k += 1;
        }
        proof {
            assert(cv.take(n as int) =~= cv);
        }
        Ok(out)
    }

    /// Opens the file at `path` with the given options.
    pub fn open_with(&self, fs: &mut FsState, path: &str, options: &OpenOptions) -> (r: Result<
        File,
        FsError,
    >)
        requires
            old(fs).wf(),
            self.valid_in(old(fs)),
        ensures
            final(fs).wf(),
            match r {
                Ok(f) => spec_open_with(old(fs)@, self.id(), path@, *options) matches Ok(p)
                    && final(fs)@ == p.0 && f.id() == p.1 && p.1 < final(fs)@.len() && final(fs)@[p.1 as int] is File,
                Err(e) => (spec_open_with(old(fs)@, self.id(), path@, *options) matches Err(k)
                    && e.kind == k) && final(fs)@ == old(fs)@,
            },
            spec_absolute(path@) && options.spec_flags_ok() ==> (r matches Err(e) && e.kind
                == FsErrorKind::EscapesRoot),
    {
        if options.truncate && !options.write {
            return Err(FsError::new(FsErrorKind::InvalidInput));
        }
        if (options.create || options.create_new) && !(options.write || options.append) {
            return Err(FsError::new(FsErrorKind::InvalidInput));
        }
        if options.append && options.truncate {
            return Err(FsError::new(FsErrorKind::InvalidInput));
        }
        if !(options.read || options.write || options.append) {
            return Err(FsError::new(FsErrorKind::InvalidInput));
        }
        if path.unicode_len() > 0 && path.get_char(0) == '/' {
            return Err(FsError::new(FsErrorKind::EscapesRoot));
        }
        let parsed = match crate::path::parse_path(path) {
            Ok(p) => p,
            Err(e) => { return Err(e); },
        };
        let mut comps = parsed.components;
        let ghost base_dv = comps.deep_view();
        if parsed.trailing {
            comps.push(Component::CurDir);
            proof {
                assert(comps.deep_view() =~= base_dv.push(SpecComponent::CurDir));
            }
        }
        proof {
            crate::path::lemma_components_valid(path@);
            assert(comps.deep_view() =~= crate::path::spec_components(path@) + (
            if crate::path::spec_trailing(path@) {
                seq![SpecComponent::CurDir]
            } else {
                Seq::<SpecComponent>::empty()
            }));
        }
        let stack: Vec<usize> = Vec::new();
        let canon: Vec<String> = Vec::new();
        proof {
            assert(stack@ =~= Seq::<usize>::empty());
            assert(canon.deep_view() =~= Seq::<Seq<char>>::empty());
        }
        match open_at(fs, stack, canon, self.node, comps, crate::resolve::MAX_SYMLINKS, options) {
            Ok(n) => Ok(File::from_node(n)),
            Err(e) => Err(e),
        }
    }

    /// Opens the file at `path` read-only, following symlinks.
    pub fn open(&self, fs: &mut FsState, path: &str) -> (r: Result<File, FsError>)
        requires
            old(fs).wf(),
            self.valid_in(old(fs)),
        ensures
            final(fs).wf(),
            final(fs)@ == old(fs)@,
            match r {
                Ok(f) => spec_open_with(old(fs)@, self.id(), path@, spec_opts_read()) matches Ok(
                    p,
                ) && f.id() == p.1,
                Err(e) => spec_open_with(old(fs)@, self.id(), path@, spec_opts_read()) matches Err(
                    k,
                ) && e.kind == k,
            },
            spec_absolute(path@) ==> (r matches Err(e) && e.kind == FsErrorKind::EscapesRoot),
    {
        let opts = OpenOptions::new().read(true);
        proof {
            assert(opts == spec_opts_read());
            assert(opts.spec_flags_ok());
        }
        let r = self.open_with(fs, path, &opts);
        proof {
            lemma_open_read_only(old(fs)@, self.id(), path@);
        }
        r
    }

    /// Creates the file at `path`, truncating it if it exists; write
    /// access, mode `0o666`.
    pub fn create(&self, fs: &mut FsState, path: &str) -> (r: Result<File, FsError>)
        requires
            old(fs).wf(),
            self.valid_in(old(fs)),
        ensures
            final(fs).wf(),
            match r {
                Ok(f) => spec_open_with(old(fs)@, self.id(), path@, spec_opts_create()) matches Ok(
                    p,
                ) && final(fs)@ == p.0 && f.id() == p.1,
                Err(e) => (spec_open_with(old(fs)@, self.id(), path@, spec_opts_create()) matches Err(
                    k,
                ) && e.kind == k) && final(fs)@ == old(fs)@,
            },
            spec_absolute(path@) ==> (r matches Err(e) && e.kind == FsErrorKind::EscapesRoot),
    {
        let opts = OpenOptions::new().write(true).create(true).truncate(true);
        proof {
            assert(opts == spec_opts_create());
            assert(opts.spec_flags_ok());
        }
        self.open_with(fs, path, &opts)
    }

    /// Writes `contents` as the whole contents of the file at `path`,
    /// creating it if missing.
    pub fn write(&self, fs: &mut FsState, path: &str, contents: &[u8]) -> (r: Result<(), FsError>)
        requires
            old(fs).wf(),
            self.valid_in(old(fs)),
        ensures
            final(fs).wf(),
            match r {
                Ok(u) => spec_write(old(fs)@, self.id(), path@, contents@) matches Ok(f2)
                    && final(fs)@ == f2,
                Err(e) => (spec_write(old(fs)@, self.id(), path@, contents@) matches Err(k)
                    && e.kind == k) && final(fs)@ == old(fs)@,
            },
            spec_absolute(path@) ==> (r matches Err(e) && e.kind == FsErrorKind::EscapesRoot),
    {
        let opts = OpenOptions::new().write(true).create(true).truncate(true);
        proof {
            assert(opts == spec_opts_create());
        }
        let f = match self.open_with(fs, path, &opts) {
            Ok(f) => f,
            Err(e) => { return Err(e); },
        };
        let fnode = f.node_index();
        let mode = match &fs.nodes[fnode] {
            Node::File { mode, .. } => *mode,
            _ => vstd::pervasive::unreached(),
        };
        set_file(fs, fnode, vstd::slice::slice_to_vec(contents), mode);
        Ok(())
    }

    /// Copies the file at `from` to the name `to` under `to_dir`,
    /// carrying the permission bits over, and returns how many bytes
    /// were copied.
    pub fn copy(&self, fs: &mut FsState, from: &str, to_dir: &Dir, to: &str) -> (r: Result<
        u64,
        FsError,
    >)
        requires
            old(fs).wf(),
            self.valid_in(old(fs)),
            to_dir.valid_in(old(fs)),
        ensures
            final(fs).wf(),
            match r {
                Ok(n) => spec_copy(old(fs)@, self.id(), from@, to_dir.id(), to@) matches Ok(p)
                    && final(fs)@ == p.0 && n == p.1,
                Err(e) => (spec_copy(old(fs)@, self.id(), from@, to_dir.id(), to@) matches Err(k)
                    && e.kind == k) && final(fs)@ == old(fs)@,
            },
            spec_absolute(from@) ==> (r matches Err(e) && e.kind == FsErrorKind::EscapesRoot),
    {
        let end = match resolve(fs, self.node, from, LeafMode::Follow) {
            Ok(e) => e,
            Err(e) => { return Err(e); },
        };
        let (data, mode) = match &fs.nodes[end.node] {
            Node::File { data, mode } => (vstd::slice::slice_to_vec(data.as_slice()), *mode),
            Node::Dir { .. } => { return Err(FsError::new(FsErrorKind::IsADirectory)); },
            Node::Symlink { .. } => { return Err(FsError::new(FsErrorKind::InvalidInput)); },
        };
        let opts = OpenOptions::new().write(true).create(true).truncate(true);
        proof {
            assert(opts == spec_opts_create());
        }
        let f = match to_dir.open_with(fs, to, &opts) {
            Ok(f) => f,
            Err(e) => { return Err(e); },
        };
        let fnode = f.node_index();
        let count = data.len() as u64;
        set_file(fs, fnode, data, mode);
        Ok(count)
    }

    /// Creates a new, empty directory at `path`, mode `0o777`.
    pub fn create_dir(&self, fs: &mut FsState, path: &str) -> (r: Result<(), FsError>)
        requires
            old(fs).wf(),
            self.valid_in(old(fs)),
        ensures
            final(fs).wf(),
            match r {
                Ok(u) => spec_create_dir(old(fs)@, self.id(), path@, 0o777u32) matches Ok(f2)
                    && final(fs)@ == f2,
                Err(e) => (spec_create_dir(old(fs)@, self.id(), path@, 0o777u32) matches Err(k)
                    && e.kind == k) && final(fs)@ == old(fs)@,
            },
            spec_absolute(path@) ==> (r matches Err(e) && e.kind == FsErrorKind::EscapesRoot),
    {
        self.create_dir_mode(fs, path, 0o777)
    }

    /// Creates a new, empty directory at `path` with the given mode.
    fn create_dir_mode(&self, fs: &mut FsState, path: &str, mode: u32) -> (r: Result<(), FsError>)
        requires
            old(fs).wf(),
            self.valid_in(old(fs)),
        ensures
            final(fs).wf(),
            match r {
                Ok(u) => spec_create_dir(old(fs)@, self.id(), path@, mode) matches Ok(f2) && final(fs)@ == f2,
                Err(e) => (spec_create_dir(old(fs)@, self.id(), path@, mode) matches Err(k)
                    && e.kind == k) && final(fs)@ == old(fs)@,
            },
            spec_absolute(path@) ==> (r matches Err(e) && e.kind == FsErrorKind::EscapesRoot),
    {
        let (end, name) = match resolve_parent(fs, self.node, path, false) {
            Ok(p) => p,
            Err(e) => { return Err(e); },
        };
        match find_entry(fs, end.node, &name) {
            Some(_) => { return Err(FsError::new(FsErrorKind::AlreadyExists)); },
            None => {},
        }
        let ghost nv = name@;
        link_new_node(fs, end.node, name, Node::Dir { entries: Vec::new(), mode });
        proof {
            assert(fs@ =~~= spec_link_new(
                old(fs)@,
                end.node,
                nv,
                SpecNode::Dir { entries: Seq::empty(), mode },
            ));
        }
        Ok(())
    }

    /// Creates the directory at `path` as the builder says: one level,
    /// or the whole chain of missing parents.
    pub fn create_dir_with(&self, fs: &mut FsState, path: &str, dir_builder: &DirBuilder) -> (r:
        Result<(), FsError>)
        requires
            old(fs).wf(),
            self.valid_in(old(fs)),
        ensures
            final(fs).wf(),
            dir_builder.recursive ==> ({
                let sr = spec_create_dir_all(old(fs)@, self.id(), path@, dir_builder.mode);
                final(fs)@ == sr.0 && (match r {
                    Ok(u) => sr.1 is None,
                    Err(e) => sr.1 == Some(e.kind),
                })
            }),
            !dir_builder.recursive ==> (match r {
                Ok(u) => spec_create_dir(old(fs)@, self.id(), path@, dir_builder.mode) matches Ok(
                    f2,
                ) && final(fs)@ == f2,
                Err(e) => (spec_create_dir(old(fs)@, self.id(), path@, dir_builder.mode) matches Err(
                    k,
                ) && e.kind == k) && final(fs)@ == old(fs)@,
            }),
    {
        if dir_builder.recursive {
            self.create_dir_all_mode(fs, path, dir_builder.mode)
        } else {
            self.create_dir_mode(fs, path, dir_builder.mode)
        }
    }

    /// Creates the directory at `path` together with every missing
    /// parent, mode `0o777`.
    pub fn create_dir_all(&self, fs: &mut FsState, path: &str) -> (r: Result<(), FsError>)
        requires
            old(fs).wf(),
            self.valid_in(old(fs)),
        ensures
            final(fs).wf(),
            ({
                let sr = spec_create_dir_all(old(fs)@, self.id(), path@, 0o777u32);
                final(fs)@ == sr.0 && (match r {
                    Ok(u) => sr.1 is None,
                    Err(e) => sr.1 == Some(e.kind),
                })
            }),
            spec_absolute(path@) ==> (r matches Err(e) && e.kind == FsErrorKind::EscapesRoot),
    {
        self.create_dir_all_mode(fs, path, 0o777)
    }

    /// Creates the directory at `path` together with every missing
    /// parent, each with the given mode. What was created before a
    /// failure stays created.
    #[verifier::loop_isolation(false)]
    fn create_dir_all_mode(&self, fs: &mut FsState, path: &str, mode: u32) -> (r: Result<
        (),
        FsError,
    >)
        requires
            old(fs).wf(),
            self.valid_in(old(fs)),
        ensures
            final(fs).wf(),
            ({
                let sr = spec_create_dir_all(old(fs)@, self.id(), path@, mode);
                final(fs)@ == sr.0 && (match r {
                    Ok(u) => sr.1 is None,
                    Err(e) => sr.1 == Some(e.kind),
                })
            }),
            spec_absolute(path@) ==> (r matches Err(e) && e.kind == FsErrorKind::EscapesRoot),
    {
        if path.unicode_len() > 0 && path.get_char(0) == '/' {
            return Err(FsError::new(FsErrorKind::EscapesRoot));
        }
        let parsed = match crate::path::parse_path(path) {
            Ok(p) => p,
            Err(e) => { return Err(e); },
        };
        let mut comps = parsed.components;
        proof {
            crate::path::lemma_components_valid(path@);
        }
        let ghost orig = spec_create_dir_all_at(
            fs@,
            Seq::empty(),
            self.node,
            comps.deep_view(),
            crate::resolve::MAX_SYMLINKS,
            mode,
        );
        let mut stack: Vec<usize> = Vec::new();
        let mut cur: usize = self.node;
        let mut budget: u32 = crate::resolve::MAX_SYMLINKS;
        proof {
            assert(stack@ =~= Seq::<usize>::empty());
        }
        while comps.len() > 0
            invariant
                fs.wf(),
                spec_is_dir(fs@, cur),
                forall|i: int| 0 <= i < stack@.len() ==> spec_is_dir(fs@, #[trigger] stack@[i]),
                forall|j: int|
                    0 <= j < comps.deep_view().len() && (#[trigger] comps.deep_view()[j])
                        is Normal ==> crate::path::spec_valid_name(
                        comps.deep_view()[j]->Normal_0,
                    ),
                spec_create_dir_all_at(fs@, stack@, cur, comps.deep_view(), budget, mode)
                    == orig,
            decreases budget, comps.len(),
        {
            let ghost pre_comps = comps.deep_view();
            let c = comps.remove(0);
            proof {
                assert(comps.deep_view() =~= pre_comps.drop_first());
            }
            match c {
                Component::CurDir => {},
                Component::ParentDir => {
                    if stack.len() == 0 {
                        return Err(FsError::new(FsErrorKind::EscapesRoot));
                    }
                    let p = stack.pop().unwrap();
                    cur = p;
                },
                Component::Normal(name) => {
                    proof {
                        assert(c@ == pre_comps[0]);
                    }
                    match find_entry(fs, cur, &name) {
                        Some(child) => {
                            proof {
                                crate::fs::lemma_lookup_valid(fs@, cur, name@);
                            }
                            match &fs.nodes[child] {
                                Node::Symlink { target } => {
                                    if budget == 0 {
                                        return Err(FsError::new(FsErrorKind::TooManySymlinks));
                                    }
                                    if target.as_str().unicode_len() > 0 && target.as_str()
                                        .get_char(0) == '/' {
                                        return Err(FsError::new(FsErrorKind::EscapesRoot));
                                    }
                                    let tparsed = match crate::path::parse_path(target.as_str()) {
                                        Ok(p) => p,
                                        Err(e) => { return Err(e); },
                                    };
                                    proof {
                                        crate::path::lemma_components_valid(target@);
                                    }
                                    budget = budget - 1;
                                    let ghost tspec = crate::path::spec_components(target@) + (
                                    if crate::path::spec_trailing(target@) {
                                        seq![crate::path::SpecComponent::CurDir]
                                    } else {
                                        Seq::<crate::path::SpecComponent>::empty()
                                    });
                                    let mut tc = tparsed.components;
                                    let ghost base_dv = tc.deep_view();
                                    if tparsed.trailing {
                                        tc.push(Component::CurDir);
                                        proof {
                                            assert(tc.deep_view() =~= base_dv.push(
                                                crate::path::SpecComponent::CurDir,
                                            ));
                                        }
                                    }
                                    proof {
                                        assert(tc.deep_view() =~= tspec);
                                    }
                                    let ghost tc_dv = tc.deep_view();
                                    tc.append(&mut comps);
                                    proof {
                                        assert(tc.deep_view() =~= tc_dv
                                            + pre_comps.drop_first());
                                    }
                                    comps = tc;
                                },
                                Node::Dir { .. } => {
                                    stack.push(cur);
                                    cur = child;
                                },
                                Node::File { .. } => {
                                    if comps.len() == 0 {
                                        return Err(FsError::new(FsErrorKind::AlreadyExists));
                                    }
                                    return Err(FsError::new(FsErrorKind::NotADirectory));
                                },
                            }
                        },
                        None => {
                            let ghost pre_fs = fs@;
                            let idx = link_new_node(
                                fs,
                                cur,
                                name,
                                Node::Dir { entries: Vec::new(), mode },
                            );
                            proof {
                                assert(fs@ =~~= spec_link_new(
                                    pre_fs,
                                    cur,
                                    pre_comps[0]->Normal_0,
                                    SpecNode::Dir { entries: Seq::empty(), mode },
                                ));
                                assert forall|i: int|
                                    0 <= i < stack@.len() implies spec_is_dir(
                                    fs@,
                                    #[trigger] stack@[i],
                                ) by {
                                    assert(spec_is_dir(pre_fs, stack@[i]));
                                }
                            }
                            stack.push(cur);
                            cur = idx;
                        },
                    }
                },
            }
        }
        Ok(())
    }

    /// Removes the file or symlink at `path`; the final name is never
    /// followed. A trailing separator is rejected.
    pub fn remove_file(&self, fs: &mut FsState, path: &str) -> (r: Result<(), FsError>)
        requires
            old(fs).wf(),
            self.valid_in(old(fs)),
        ensures
            final(fs).wf(),
            match r {
                Ok(u) => spec_remove_file(old(fs)@, self.id(), path@) matches Ok(f2) && final(fs)@ == f2,
                Err(e) => (spec_remove_file(old(fs)@, self.id(), path@) matches Err(k) && e.kind
                    == k) && final(fs)@ == old(fs)@,
            },
            spec_absolute(path@) ==> (r matches Err(e) && e.kind == FsErrorKind::EscapesRoot),
    {
        let (end, name) = match resolve_parent(fs, self.node, path, true) {
            Ok(p) => p,
            Err(e) => { return Err(e); },
        };
        let child = match find_entry(fs, end.node, &name) {
            Some(c) => c,
            None => { return Err(FsError::new(FsErrorKind::NotFound)); },
        };
        proof {
            crate::fs::lemma_lookup_valid(fs@, end.node, name@);
        }
        match &fs.nodes[child] {
            Node::Dir { .. } => { return Err(FsError::new(FsErrorKind::IsADirectory)); },
            _ => {},
        }
        unlink_entry(fs, end.node, &name);
        Ok(())
    }

    /// Removes the empty directory at `path`; the final name is never
    /// followed.
    pub fn remove_dir(&self, fs: &mut FsState, path: &str) -> (r: Result<(), FsError>)
        requires
            old(fs).wf(),
            self.valid_in(old(fs)),
        ensures
            final(fs).wf(),
            match r {
                Ok(u) => spec_remove_dir(old(fs)@, self.id(), path@) matches Ok(f2) && final(fs)@
                    == f2,
                Err(e) => (spec_remove_dir(old(fs)@, self.id(), path@) matches Err(k) && e.kind
                    == k) && final(fs)@ == old(fs)@,
            },
            spec_absolute(path@) ==> (r matches Err(e) && e.kind == FsErrorKind::EscapesRoot),
    {
        let (end, name) = match resolve_parent(fs, self.node, path, false) {
            Ok(p) => p,
            Err(e) => { return Err(e); },
        };
        let child = match find_entry(fs, end.node, &name) {
            Some(c) => c,
            None => { return Err(FsError::new(FsErrorKind::NotFound)); },
        };
        proof {
            crate::fs::lemma_lookup_valid(fs@, end.node, name@);
        }
        match &fs.nodes[child] {
            Node::Dir { entries, .. } => {
                if entries.len() > 0 {
                    return Err(FsError::new(FsErrorKind::DirectoryNotEmpty));
                }
            },
            _ => { return Err(FsError::new(FsErrorKind::NotADirectory)); },
        }
        unlink_entry(fs, end.node, &name);
        Ok(())
    }

    /// Removes the directory at `path` with everything below it, by
    /// unlinking it whole. Its nodes stay in the store — handles already
    /// held into the subtree keep working — but nothing reaches them by
    /// name any more.
    pub fn remove_dir_all(&self, fs: &mut FsState, path: &str) -> (r: Result<(), FsError>)
        requires
            old(fs).wf(),
            self.valid_in(old(fs)),
        ensures
            final(fs).wf(),
            match r {
                Ok(u) => spec_remove_dir_all(old(fs)@, self.id(), path@) matches Ok(f2) && final(fs)@ == f2,
                Err(e) => (spec_remove_dir_all(old(fs)@, self.id(), path@) matches Err(k)
                    && e.kind == k) && final(fs)@ == old(fs)@,
            },
            spec_absolute(path@) ==> (r matches Err(e) && e.kind == FsErrorKind::EscapesRoot),
    {
        let (end, name) = match resolve_parent(fs, self.node, path, false) {
            Ok(p) => p,
            Err(e) => { return Err(e); },
        };
        let child = match find_entry(fs, end.node, &name) {
            Some(c) => c,
            None => { return Err(FsError::new(FsErrorKind::NotFound)); },
        };
        proof {
            crate::fs::lemma_lookup_valid(fs@, end.node, name@);
        }
        match &fs.nodes[child] {
            Node::Dir { .. } => {},
            _ => { return Err(FsError::new(FsErrorKind::NotADirectory)); },
        }
        unlink_entry(fs, end.node, &name);
        Ok(())
    }

    /// Renames the object at `from` to the name `to` under `to_dir`,
    /// replacing a compatible object already there: a directory may only
    /// replace an empty directory, a non-directory only a non-directory,
    /// and a target naming the same object is a no-op.
    pub fn rename(&self, fs: &mut FsState, from: &str, to_dir: &Dir, to: &str) -> (r: Result<
        (),
        FsError,
    >)
        requires
            old(fs).wf(),
            self.valid_in(old(fs)),
            to_dir.valid_in(old(fs)),
        ensures
            final(fs).wf(),
            match r {
                Ok(u) => spec_rename(old(fs)@, self.id(), from@, to_dir.id(), to@) matches Ok(f2)
                    && final(fs)@ == f2,
                Err(e) => (spec_rename(old(fs)@, self.id(), from@, to_dir.id(), to@) matches Err(
                    k,
                ) && e.kind == k) && final(fs)@ == old(fs)@,
            },
            spec_absolute(from@) ==> (r matches Err(e) && e.kind == FsErrorKind::EscapesRoot),
    {
        let (e1, n1) = match resolve_parent(fs, self.node, from, false) {
            Ok(p) => p,
            Err(e) => { return Err(e); },
        };
        let (e2, n2) = match resolve_parent(fs, to_dir.node, to, false) {
            Ok(p) => p,
            Err(e) => { return Err(e); },
        };
        let d1 = e1.node;
        let d2 = e2.node;
        let src = match find_entry(fs, d1, &n1) {
            Some(s) => s,
            None => { return Err(FsError::new(FsErrorKind::NotFound)); },
        };
        proof {
            crate::fs::lemma_lookup_valid(fs@, d1, n1@);
        }
        match find_entry(fs, d2, &n2) {
            Some(t) => {
                proof {
                    crate::fs::lemma_lookup_valid(fs@, d2, n2@);
                }
                if t == src {
                    return Ok(());
                }
                let src_dir = matches!(&fs.nodes[src], Node::Dir { .. });
                let tgt_dir = matches!(&fs.nodes[t], Node::Dir { .. });
                if src_dir && !tgt_dir {
                    return Err(FsError::new(FsErrorKind::NotADirectory));
                }
                if src_dir {
                    let tgt_empty = match &fs.nodes[t] {
                        Node::Dir { entries, .. } => entries.len() == 0,
                        _ => false,
                    };
                    if !tgt_empty {
                        return Err(FsError::new(FsErrorKind::DirectoryNotEmpty));
                    }
                }
                if !src_dir && tgt_dir {
                    return Err(FsError::new(FsErrorKind::IsADirectory));
                }
                proof {
                    if d1 == d2 && n1@ == n2@ {
                        assert(t == src);
                    }
                }
                unlink_entry(fs, d1, &n1);
                proof {
                    if d1 == d2 {
                        crate::fs::lemma_lookup_remove_other(
                            spec_entries_of(old(fs)@, d1),
                            n1@,
                            n2@,
                        );
                    }
                }
                repoint_entry(fs, d2, n2, src);
                Ok(())
            },
            None => {
                proof {
                    if d1 == d2 {
                        assert(n1@ != n2@);
                    }
                }
                unlink_entry(fs, d1, &n1);
                proof {
                    if d1 == d2 {
                        crate::fs::lemma_lookup_remove_other(
                            spec_entries_of(old(fs)@, d1),
                            n1@,
                            n2@,
                        );
                    }
                }
                link_existing(fs, d2, n2, src);
                Ok(())
            },
        }
    }

    /// Creates a hard link at `dst` under `dst_dir` to the object the
    /// final name of `src` denotes; the source is never followed, and a
    /// directory cannot be hard-linked.
    pub fn hard_link(&self, fs: &mut FsState, src: &str, dst_dir: &Dir, dst: &str) -> (r: Result<
        (),
        FsError,
    >)
        requires
            old(fs).wf(),
            self.valid_in(old(fs)),
            dst_dir.valid_in(old(fs)),
        ensures
            final(fs).wf(),
            match r {
                Ok(u) => spec_hard_link(old(fs)@, self.id(), src@, dst_dir.id(), dst@) matches Ok(
                    f2,
                ) && final(fs)@ == f2,
                Err(e) => (spec_hard_link(old(fs)@, self.id(), src@, dst_dir.id(), dst@) matches Err(
                    k,
                ) && e.kind == k) && final(fs)@ == old(fs)@,
            },
            spec_absolute(src@) ==> (r matches Err(e) && e.kind == FsErrorKind::EscapesRoot),
    {
        let (e1, n1) = match resolve_parent(fs, self.node, src, true) {
            Ok(p) => p,
            Err(e) => { return Err(e); },
        };
        let (e2, n2) = match resolve_parent(fs, dst_dir.node, dst, true) {
            Ok(p) => p,
            Err(e) => { return Err(e); },
        };
        let s_node = match find_entry(fs, e1.node, &n1) {
            Some(s) => s,
            None => { return Err(FsError::new(FsErrorKind::NotFound)); },
        };
        proof {
            crate::fs::lemma_lookup_valid(fs@, e1.node, n1@);
        }
        match &fs.nodes[s_node] {
            Node::Dir { .. } => { return Err(FsError::new(FsErrorKind::PermissionDenied)); },
            _ => {},
        }
        match find_entry(fs, e2.node, &n2) {
            Some(_) => { return Err(FsError::new(FsErrorKind::AlreadyExists)); },
            None => {},
        }
        link_existing(fs, e2.node, n2, s_node);
        Ok(())
    }

    /// Lists the directory at `path`: one entry per name, in the
    /// directory's own order, each able to open or remove itself.
    #[verifier::loop_isolation(false)]
    pub fn read_dir(&self, fs: &FsState, path: &str) -> (r: Result<
        crate::dir_entry::ReadDir,
        FsError,
    >)
        requires
            fs.wf(),
            self.valid_in(fs),
        ensures
            match r {
                Ok(rd) => spec_read_dir(fs@, self.id(), path@) matches Ok(p) && rd@.len()
                    == p.1.len() && forall|k: int|
                    0 <= k < rd@.len() ==> #[trigger] rd@[k] == (crate::dir_entry::SpecDirEntry {
                        dir: p.0,
                        name: p.1[k],
                    }),
                Err(e) => spec_read_dir(fs@, self.id(), path@) matches Err(k) && e.kind == k,
            },
            spec_absolute(path@) ==> (r matches Err(e) && e.kind == FsErrorKind::EscapesRoot),
    {
        let end = match resolve(fs, self.node, path, LeafMode::Follow) {
            Ok(e) => e,
            Err(e) => { return Err(e); },
        };
        let d = end.node;
        let entries = match &fs.nodes[d] {
            Node::Dir { entries, .. } => entries,
            _ => { return Err(FsError::new(FsErrorKind::NotADirectory)); },
        };
        let ghost names = spec_entry_names(spec_entries_of(fs@, d));
        let n = entries.len();
        let mut out: Vec<crate::dir_entry::DirEntry> = Vec::new();
        proof {
            assert(out.deep_view() =~= Seq::<crate::dir_entry::SpecDirEntry>::empty());
        }
        let mut k: usize = 0;
        while k < n
            invariant
                k <= n,
                out.deep_view().len() == k,
                forall|j: int|
                    0 <= j < k ==> #[trigger] out.deep_view()[j] == (
                    crate::dir_entry::SpecDirEntry { dir: d, name: names[j] }),
            decreases n - k,
        {
            let e = &entries[k];
            let ghost pre = out.deep_view();
            out.push(crate::dir_entry::DirEntry::new(d, e.name.clone()));
            proof {
                assert(out.deep_view() =~= pre.push(
                    crate::dir_entry::SpecDirEntry { dir: d, name: names[k as int] },
                ));
            }
            k += 1;
        }
        Ok(crate::dir_entry::ReadDir::from_entries(out))
    }

    /// Lists this directory itself.
    pub fn entries(&self, fs: &FsState) -> (r: Result<crate::dir_entry::ReadDir, FsError>)
        requires
            fs.wf(),
            self.valid_in(fs),
        ensures
            match r {
                Ok(rd) => rd@.len() == spec_entries_of(fs@, self.id()).len() && forall|k: int|
                    0 <= k < rd@.len() ==> #[trigger] rd@[k] == (crate::dir_entry::SpecDirEntry {
                        dir: self.id(),
                        name: spec_entries_of(fs@, self.id())[k].name,
                    }),
                Err(e) => false,
            },
    {
        let r = self.read_dir(fs, "");
        proof {
            reveal_strlit("");
            assert(""@ =~= Seq::<char>::empty());
            assert(!spec_absolute(""@) && !crate::path::spec_has_nul(""@));
            assert(crate::path::seg_len(""@) == 0);
            assert(crate::path::spec_segments(""@) =~= Seq::<Seq<char>>::empty());
            assert(crate::path::spec_components(""@) =~= Seq::<SpecComponent>::empty());
            assert(!crate::path::spec_trailing(""@));
            assert(spec_read_dir(fs@, self.id(), ""@) matches Ok(p) && p.0 == self.id());
        }
        match r {
            Ok(rd) => Ok(rd),
            Err(e) => vstd::pervasive::unreached(),
        }
    }

    /// Removes the directory this handle denotes and consumes the
    /// handle: every entry anywhere in the store that points at it is
    /// unlinked. The node itself stays, so other handles to it keep
    /// working on an empty-reachable object.
    #[verifier::loop_isolation(false)]
    pub fn remove_open_dir(self, fs: &mut FsState) -> (r: Result<(), FsError>)
        requires
            old(fs).wf(),
            self.valid_in(old(fs)),
        ensures
            final(fs).wf(),
            r is Ok,
            final(fs)@ =~= spec_remove_open_dir(old(fs)@, self.id()),
    {
        let ghost old_fs = fs@;
        let ghost target = spec_remove_open_dir(old_fs, self.node);
        let n = fs.nodes.len();
        let mut i: usize = 0;
        while i < n
            invariant
                n == fs@.len(),
                fs@.len() == old_fs.len(),
                i <= n,
                forall|t: int| 0 <= t < i ==> fs@[t] == target[t],
                forall|t: int| i <= t < n ==> fs@[t] == old_fs[t],
            decreases n - i,
        {
            let is_dir = matches!(&fs.nodes[i], Node::Dir { .. });
            if is_dir {
                let mut kept: Vec<Entry> = Vec::new();
                proof {
                    assert(kept.deep_view() =~= Seq::<SpecEntry>::empty());
                    assert(spec_entries_of(fs@, i).take(0) =~= Seq::<SpecEntry>::empty());
                }
                match &fs.nodes[i] {
                    Node::Dir { entries, .. } => {
                        let m = entries.len();
                        let mut j: usize = 0;
                        while j < m
                            invariant
                                j <= m,
                                m == entries.len(),
                                entries.deep_view() == spec_entries_of(fs@, i),
                                kept.deep_view() =~= crate::fs::spec_drop_refs(
                                    spec_entries_of(fs@, i).take(j as int),
                                    self.node,
                                ),
                            decreases m - j,
                        {
                            let e = &entries[j];
                            let ghost pre = kept.deep_view();
                            let ghost es = spec_entries_of(fs@, i);
                            if e.node != self.node {
                                kept.push(Entry { name: e.name.clone(), node: e.node });
                                proof {
                                    assert(kept.deep_view() =~= pre.push(es[j as int]));
                                }
                            }
                            proof {
                                crate::fs::lemma_drop_refs_push(
                                    es.take(j as int),
                                    self.node,
                                    es[j as int],
                                );
                                assert(es.take(j + 1) =~= es.take(j as int).push(es[j as int]));
                            }
                            j += 1;
                        }
                        proof {
                            assert(spec_entries_of(fs@, i).take(m as int) =~= spec_entries_of(
                                fs@,
                                i,
                            ));
                        }
                    },
                    _ => vstd::pervasive::unreached(),
                }
                let ghost pre_fs = fs@;
                match &mut fs.nodes[i] {
                    Node::Dir { entries, .. } => {
                        *entries = kept;
                    },
                    _ => vstd::pervasive::unreached(),
                }
                proof {
                    assert(fs@[i as int] == target[i as int]);
                    assert forall|t: int| 0 <= t < i implies fs@[t] == target[t] by {
                        assert(fs@[t] == pre_fs[t]);
                    }
                    assert forall|t: int| i + 1 <= t < n implies fs@[t] == old_fs[t] by {
                        assert(fs@[t] == pre_fs[t]);
                    }
                }
            } else {
                proof {
                    assert(fs@[i as int] == target[i as int]);
                }
            }
            i += 1;
        }
        proof {
            assert(fs@ =~= target);
            assert forall|t: int| 0 <= t < fs@.len() implies crate::fs::spec_wf_node(fs@, t) by {
                assert(crate::fs::spec_wf_node(old_fs, t));
                if old_fs[t] is Dir {
                    let old_es = old_fs[t]->Dir_entries;
                    let new_es = fs@[t]->Dir_entries;
                    crate::fs::lemma_drop_refs_wf(old_es, self.node);
                    assert(new_es == crate::fs::spec_drop_refs(old_es, self.node));
                    assert forall|k: int| 0 <= k < new_es.len() implies (
                    #[trigger] new_es[k]).node < fs@.len() && crate::path::spec_valid_name(
                        new_es[k].name,
                    ) by {
                        let j = choose|j: int| 0 <= j < old_es.len() && old_es[j] == new_es[k];
                        assert(old_es[j].node < old_fs.len());
                    }
                }
            }
        }
        Ok(())
    }

    /// Removes the directory this handle denotes together with its
    /// contents, consuming the handle. In this store that is the same
    /// unlinking as [`Dir::remove_open_dir`]: the subtree becomes
    /// unreachable, and its nodes stay for the handles still held.
    pub fn remove_open_dir_all(self, fs: &mut FsState) -> (r: Result<(), FsError>)
        requires
            old(fs).wf(),
            self.valid_in(old(fs)),
        ensures
            final(fs).wf(),
            r is Ok,
            final(fs)@ =~= spec_remove_open_dir(old(fs)@, self.id()),
    {
        self.remove_open_dir(fs)
    }

    /// Binding a listening socket is not implemented by this store; a
    /// capability gap, reported as such.
    pub fn bind_unix_listener(&self, path: &str) -> (r: Result<(), FsError>)
        ensures
            r matches Err(e) && e.kind == FsErrorKind::Unsupported,
    {
        let _ = path;
        Err(FsError::new(FsErrorKind::Unsupported))
    }

    /// Connecting a stream socket is not implemented by this store; a
    /// capability gap, reported as such.
    pub fn connect_unix_stream(&self, path: &str) -> (r: Result<(), FsError>)
        ensures
            r matches Err(e) && e.kind == FsErrorKind::Unsupported,
    {
        let _ = path;
        Err(FsError::new(FsErrorKind::Unsupported))
    }

    /// Binding a datagram socket is not implemented by this store; a
    /// capability gap, reported as such.
    pub fn bind_unix_datagram(&self, path: &str) -> (r: Result<(), FsError>)
        ensures
            r matches Err(e) && e.kind == FsErrorKind::Unsupported,
    {
        let _ = path;
        Err(FsError::new(FsErrorKind::Unsupported))
    }

    /// Connecting a datagram socket is not implemented by this store; a
    /// capability gap, reported as such.
    pub fn connect_unix_datagram(&self, path: &str) -> (r: Result<(), FsError>)
        ensures
            r matches Err(e) && e.kind == FsErrorKind::Unsupported,
    {
        let _ = path;
        Err(FsError::new(FsErrorKind::Unsupported))
    }

    /// Sending on a datagram socket is not implemented by this store; a
    /// capability gap, reported as such.
    pub fn send_to_unix_datagram_addr(&self, buf: &[u8], path: &str) -> (r: Result<usize, FsError>)
        ensures
            r matches Err(e) && e.kind == FsErrorKind::Unsupported,
    {
        let _ = buf;
        let _ = path;
        Err(FsError::new(FsErrorKind::Unsupported))
    }

    /// Creates a symbolic link at `link` whose literal target text is
    /// `original`. The text is stored untouched; an absolute target is
    /// allowed here and rejected only when something resolves through
    /// it.
    pub fn symlink(&self, fs: &mut FsState, original: &str, link: &str) -> (r: Result<(), FsError>)
        requires
            old(fs).wf(),
            self.valid_in(old(fs)),
        ensures
            final(fs).wf(),
            match r {
                Ok(u) => spec_symlink(old(fs)@, self.id(), original@, link@) matches Ok(f2)
                    && final(fs)@ == f2,
                Err(e) => (spec_symlink(old(fs)@, self.id(), original@, link@) matches Err(k)
                    && e.kind == k) && final(fs)@ == old(fs)@,
            },
            spec_absolute(link@) && !crate::path::spec_has_nul(original@) && original@.len() > 0
                ==> (r matches Err(e) && e.kind == FsErrorKind::EscapesRoot),
    {
        if str_has_nul(original) {
            return Err(FsError::new(FsErrorKind::InvalidInput));
        }
        if original.unicode_len() == 0 {
            return Err(FsError::new(FsErrorKind::InvalidInput));
        }
        let (end, name) = match resolve_parent(fs, self.node, link, true) {
            Ok(p) => p,
            Err(e) => { return Err(e); },
        };
        match find_entry(fs, end.node, &name) {
            Some(_) => { return Err(FsError::new(FsErrorKind::AlreadyExists)); },
            None => {},
        }
        link_new_node(fs, end.node, name, Node::Symlink { target: original.to_owned() });
        Ok(())
    }

    /// Creates a file symbolic link; in this store the same thing as
    /// [`Dir::symlink`].
    pub fn symlink_file(&self, fs: &mut FsState, original: &str, link: &str) -> (r: Result<
        (),
        FsError,
    >)
        requires
            old(fs).wf(),
            self.valid_in(old(fs)),
        ensures
            final(fs).wf(),
            match r {
                Ok(u) => spec_symlink(old(fs)@, self.id(), original@, link@) matches Ok(f2)
                    && final(fs)@ == f2,
                Err(e) => (spec_symlink(old(fs)@, self.id(), original@, link@) matches Err(k)
                    && e.kind == k) && final(fs)@ == old(fs)@,
            },
    {
        self.symlink(fs, original, link)
    }

    /// Creates a directory symbolic link; in this store the same thing
    /// as [`Dir::symlink`].
    pub fn symlink_dir(&self, fs: &mut FsState, original: &str, link: &str) -> (r: Result<
        (),
        FsError,
    >)
        requires
            old(fs).wf(),
            self.valid_in(old(fs)),
        ensures
            final(fs).wf(),
            match r {
                Ok(u) => spec_symlink(old(fs)@, self.id(), original@, link@) matches Ok(f2)
                    && final(fs)@ == f2,
                Err(e) => (spec_symlink(old(fs)@, self.id(), original@, link@) matches Err(k)
                    && e.kind == k) && final(fs)@ == old(fs)@,
            },
    {
        self.symlink(fs, original, link)
    }
}

/// Builds the metadata snapshot of one node.
fn metadata_of_node(fs: &FsState, node: usize) -> (r: Metadata)
    requires
        node < fs@.len(),
    ensures
        r == spec_metadata_of(fs@, node),
{
    match &fs.nodes[node] {
        Node::Dir { mode, .. } => Metadata {
            ftype: FileType::Dir,
            len: 0,
            mode: *mode,
            ino: node as u64,
        },
        Node::File { data, mode } => Metadata {
            ftype: FileType::File,
            len: data.len() as u64,
            mode: *mode,
            ino: node as u64,
        },
        Node::Symlink { target } => Metadata {
            ftype: FileType::Symlink,
            len: target.as_str().unicode_len() as u64,
            mode: 0o777,
            ino: node as u64,
        },
    }
}

} // verus!
