//! The resolver: consumes a component sequence against a starting
//! directory, one component at a time. `..` is satisfied only by popping
//! the stack of directories this very walk has already opened — never by
//! text manipulation — so a walk can never climb above its start. Symbolic
//! links are expanded in place, bounded by a fixed budget, and an absolute
//! link target is rejected as an escape.

use vstd::prelude::*;

use crate::error::{FsError, FsErrorKind};
use crate::fs::{
    find_entry, spec_entries_of, spec_is_dir, spec_lookup, spec_wf_node, FsState, Node, SpecEntry,
    SpecNode,
};
use crate::path::{
    parse_path, spec_absolute, spec_components, spec_has_nul, spec_trailing, Component,
    SpecComponent,
};

verus! {

/// How many symbolic-link expansions one walk may perform.
pub const MAX_SYMLINKS: u32 = 40;

/// What to do when the final component turns out to be a symbolic link.
#[derive(Clone, Copy, Debug, PartialEq, Eq, Structural)]
pub enum LeafMode {
    /// Follow it, like every non-final component.
    Follow,
    /// Fail with `UnexpectedSymlink`.
    RefuseSymlink,
    /// Stop on the link itself and hand it back unfollowed.
    ReturnSymlink,
}

/// Where a finished walk stands: the node reached, the ancestor stack and
/// canonical names that led there, and the symlink budget left.
#[verifier::ext_equal]
pub struct SpecWalkEnd {
    pub node: usize,
    pub stack: Seq<usize>,
    pub canon: Seq<Seq<char>>,
    pub budget: u32,
}

/// The executable form of a finished walk.
pub struct WalkEnd {
    pub node: usize,
    pub stack: Vec<usize>,
    pub canon: Vec<String>,
    pub budget: u32,
}

impl View for WalkEnd {
    type V = SpecWalkEnd;

    open spec fn view(&self) -> SpecWalkEnd {
        SpecWalkEnd {
            node: self.node,
            stack: self.stack@,
            canon: self.canon.deep_view(),
            budget: self.budget,
        }
    }
}

/// What one walk yields, step by step.
///
/// - A `.` is a no-op; a `..` pops the stack of directories already opened
///   by this walk, and fails as an escape if there is nothing to pop.
/// - A name is looked up in the current directory. A symbolic link in a
///   non-final position, or in final position under `Follow`, is expanded
///   in place: its target text must be relative and NUL-free, costs one
///   unit of budget, and is resolved from the very directory that holds
///   the link. A final symbolic link under `RefuseSymlink` fails; under
///   `ReturnSymlink` it is the result.
/// - Any other object found mid-walk must be a directory.
pub open spec fn spec_walk(
    fs: Seq<SpecNode>,
    stack: Seq<usize>,
    canon: Seq<Seq<char>>,
    cur: usize,
    comps: Seq<SpecComponent>,
    budget: u32,
    leaf: LeafMode,
) -> Result<SpecWalkEnd, FsErrorKind>
    decreases budget, comps.len(),
{
    if comps.len() == 0 {
        Ok(SpecWalkEnd { node: cur, stack, canon, budget })
    } else {
        let rest = comps.drop_first();
        match comps[0] {
            SpecComponent::CurDir => spec_walk(fs, stack, canon, cur, rest, budget, leaf),
            SpecComponent::ParentDir => {
                if stack.len() == 0 {
                    Err(FsErrorKind::EscapesRoot)
                } else {
                    spec_walk(
                        fs,
                        stack.drop_last(),
                        canon.drop_last(),
                        stack.last(),
                        rest,
                        budget,
                        leaf,
                    )
                }
            },
            SpecComponent::Normal(name) => {
                if !spec_is_dir(fs, cur) {
                    Err(FsErrorKind::NotADirectory)
                } else {
                    match spec_lookup(spec_entries_of(fs, cur), name) {
                        None => Err(FsErrorKind::NotFound),
                        Some(child) => {
                            if child >= fs.len() {
                                Err(FsErrorKind::NotFound)
                            } else if fs[child as int] is Symlink {
                                let target = fs[child as int]->Symlink_target;
                                if rest.len() == 0 && leaf == LeafMode::RefuseSymlink {
                                    Err(FsErrorKind::UnexpectedSymlink)
                                } else if rest.len() == 0 && leaf == LeafMode::ReturnSymlink {
                                    Ok(
                                        SpecWalkEnd {
                                            node: child,
                                            stack: stack.push(cur),
                                            canon: canon.push(name),
                                            budget,
                                        },
                                    )
                                } else if budget == 0 {
                                    Err(FsErrorKind::TooManySymlinks)
                                } else if spec_absolute(target) {
                                    Err(FsErrorKind::EscapesRoot)
                                } else if spec_has_nul(target) {
                                    Err(FsErrorKind::InvalidInput)
                                } else {
                                    let tcomps = spec_components(target) + (if spec_trailing(
                                        target,
                                    ) {
                                        seq![SpecComponent::CurDir]
                                    } else {
                                        Seq::<SpecComponent>::empty()
                                    });
                                    spec_walk(
                                        fs,
                                        stack,
                                        canon,
                                        cur,
                                        tcomps + rest,
                                        (budget - 1) as u32,
                                        leaf,
                                    )
                                }
                            } else if rest.len() == 0 {
                                Ok(
                                    SpecWalkEnd {
                                        node: child,
                                        stack: stack.push(cur),
                                        canon: canon.push(name),
                                        budget,
                                    },
                                )
                            } else if fs[child as int] is Dir {
                                spec_walk(
                                    fs,
                                    stack.push(cur),
                                    canon.push(name),
                                    child,
                                    rest,
                                    budget,
                                    leaf,
                                )
                            } else {
                                Err(FsErrorKind::NotADirectory)
                            }
                        },
                    }
                }
            },
        }
    }
}

/// Whether an executable walk outcome is the one the specification names.
pub open spec fn walk_matches(
    r: Result<WalkEnd, FsError>,
    s: Result<SpecWalkEnd, FsErrorKind>,
) -> bool {
    match r {
        Ok(end) => s matches Ok(se) && end@ == se,
        Err(err) => s matches Err(k) && err.kind == k,
    }
}

/// Runs the walk from an explicit starting state.
#[verifier::loop_isolation(false)]
pub(crate) fn walk_from(
    fs: &FsState,
    stack0: Vec<usize>,
    canon0: Vec<String>,
    cur0: usize,
    comps0: Vec<Component>,
    budget0: u32,
    leaf: LeafMode,
) -> (r: Result<WalkEnd, FsError>)
    requires
        fs.wf(),
        spec_is_dir(fs@, cur0),
        forall|i: int| 0 <= i < stack0@.len() ==> spec_is_dir(fs@, #[trigger] stack0@[i]),
        stack0@.len() == canon0@.len(),
    ensures
        walk_matches(
            r,
            spec_walk(fs@, stack0@, canon0.deep_view(), cur0, comps0.deep_view(), budget0, leaf),
        ),
        r matches Ok(end) ==> end.node < fs@.len() && (leaf != LeafMode::ReturnSymlink ==> !(
        fs@[end.node as int] is Symlink)) && end.stack@.len() == end.canon@.len() && forall|
            i: int,
        |
            0 <= i < end.stack@.len() ==> spec_is_dir(fs@, #[trigger] end.stack@[i]),
{
    let ghost orig = spec_walk(
        fs@,
        stack0@,
        canon0.deep_view(),
        cur0,
        comps0.deep_view(),
        budget0,
        leaf,
    );
    let mut stack = stack0;
    let mut canon = canon0;
    let mut cur = cur0;
    let mut comps = comps0;
    let mut budget = budget0;
    while comps.len() > 0
        invariant
            spec_is_dir(fs@, cur),
            forall|i: int| 0 <= i < stack@.len() ==> spec_is_dir(fs@, #[trigger] stack@[i]),
            stack@.len() == canon@.len(),
            spec_walk(fs@, stack@, canon.deep_view(), cur, comps.deep_view(), budget, leaf)
                == orig,
        decreases budget, comps.deep_view().len(),
    {
        let ghost pre_comps = comps.deep_view();
        let c = comps.remove(0);
        proof {
            assert(comps.deep_view() =~= pre_comps.drop_first());
        }
        match c {
            Component::CurDir => {
                proof {
                    assert(spec_walk(
                        fs@,
                        stack@,
                        canon.deep_view(),
                        cur,
                        comps.deep_view(),
                        budget,
                        leaf,
                    ) == orig);
                }
            },
            Component::ParentDir => {
                if stack.len() == 0 {
                    return Err(FsError::new(FsErrorKind::EscapesRoot));
                }
                let ghost old_canon = canon.deep_view();
                let p = stack.pop().unwrap();
                canon.pop();
                proof {
                    assert(canon.deep_view() =~= old_canon.drop_last());
                }
                cur = p;
                proof {
                    assert(spec_walk(
                        fs@,
                        stack@,
                        canon.deep_view(),
                        cur,
                        comps.deep_view(),
                        budget,
                        leaf,
                    ) == orig);
                }
            },
            Component::Normal(name) => {
                proof {
                    assert(c@ == pre_comps[0]);
                }
                match find_entry(fs, cur, &name) {
                    None => {
                        return Err(FsError::new(FsErrorKind::NotFound));
                    },
                    Some(child) => {
                        proof {
                            crate::fs::lemma_lookup_valid(fs@, cur, name@);
                        }
                        let ghost old_stack = stack@;
                        let ghost old_canon = canon.deep_view();
                        match &fs.nodes[child] {
                            Node::Symlink { target } => {
                                if comps.len() == 0 && leaf == LeafMode::RefuseSymlink {
                                    return Err(FsError::new(FsErrorKind::UnexpectedSymlink));
                                }
                                if comps.len() == 0 && leaf == LeafMode::ReturnSymlink {
                                    stack.push(cur);
                                    canon.push(name);
                                    proof {
                                        assert(canon.deep_view() =~= old_canon.push(name@));
                                    }
                                    return Ok(WalkEnd { node: child, stack, canon, budget });
                                }
                                if budget == 0 {
                                    return Err(FsError::new(FsErrorKind::TooManySymlinks));
                                }
                                if target.as_str().unicode_len() > 0 && target.as_str().get_char(0)
                                    == '/' {
                                    return Err(FsError::new(FsErrorKind::EscapesRoot));
                                }
                                let parsed = match parse_path(target.as_str()) {
                                    Ok(p) => p,
                                    Err(e) => { return Err(e); },
                                };
                                budget = budget - 1;
                                let ghost tspec = spec_components(target@) + (if spec_trailing(
                                    target@,
                                ) {
                                    seq![SpecComponent::CurDir]
                                } else {
                                    Seq::<SpecComponent>::empty()
                                });
                                let mut tc = parsed.components;
                                let ghost base_dv = tc.deep_view();
                                if parsed.trailing {
                                    tc.push(Component::CurDir);
                                    proof {
                                        assert(tc.deep_view() =~= base_dv.push(
                                            SpecComponent::CurDir,
                                        ));
                                    }
                                }
                                proof {
                                    assert(tc.deep_view() =~= tspec);
                                }
                                let ghost tc_dv = tc.deep_view();
                                tc.append(&mut comps);
                                proof {
                                    assert(tc.deep_view() =~= tc_dv + pre_comps.drop_first());
                                }
                                comps = tc;
                                proof {
                                    assert(spec_walk(
                                        fs@,
                                        stack@,
                                        canon.deep_view(),
                                        cur,
                                        comps.deep_view(),
                                        budget,
                                        leaf,
                                    ) == orig);
                                }
                            },
                            Node::Dir { .. } => {
                                stack.push(cur);
                                canon.push(name);
                                proof {
                                    assert(canon.deep_view() =~= old_canon.push(name@));
                                }
                                if comps.len() == 0 {
                                    return Ok(WalkEnd { node: child, stack, canon, budget });
                                }
                                cur = child;
                                proof {
                                    assert(spec_walk(
                                        fs@,
                                        stack@,
                                        canon.deep_view(),
                                        cur,
                                        comps.deep_view(),
                                        budget,
                                        leaf,
                                    ) == orig);
                                }
                            },
                            Node::File { .. } => {
                                if comps.len() == 0 {
                                    stack.push(cur);
                                    canon.push(name);
                                    proof {
                                        assert(canon.deep_view() =~= old_canon.push(name@));
                                    }
                                    return Ok(WalkEnd { node: child, stack, canon, budget });
                                }
                                return Err(FsError::new(FsErrorKind::NotADirectory));
                            },
                        }
                    },
                }
            },
        }
    }
    Ok(WalkEnd { node: cur, stack, canon, budget })
}

/// What resolving a whole path from a directory yields: an absolute path
/// is rejected as an escape before anything else, an embedded NUL as
/// invalid input, and otherwise the components are walked with a fresh
/// ancestor stack and a full symlink budget. A trailing separator appends
/// a final `.`, so a symlink in the otherwise-final position is still
/// followed.
pub open spec fn spec_resolve(
    fs: Seq<SpecNode>,
    start: usize,
    s: Seq<char>,
    leaf: LeafMode,
) -> Result<SpecWalkEnd, FsErrorKind> {
    if spec_absolute(s) {
        Err(FsErrorKind::EscapesRoot)
    } else if spec_has_nul(s) {
        Err(FsErrorKind::InvalidInput)
    } else {
        let comps = spec_components(s) + (if spec_trailing(s) {
            seq![SpecComponent::CurDir]
        } else {
            Seq::<SpecComponent>::empty()
        });
        spec_walk(fs, Seq::empty(), Seq::empty(), start, comps, MAX_SYMLINKS, leaf)
    }
}

/// Resolves a path from a starting directory.
pub(crate) fn resolve(fs: &FsState, start: usize, path: &str, leaf: LeafMode) -> (r: Result<
    WalkEnd,
    FsError,
>)
    requires
        fs.wf(),
        spec_is_dir(fs@, start),
    ensures
        walk_matches(r, spec_resolve(fs@, start, path@, leaf)),
        r matches Ok(end) ==> end.node < fs@.len() && (leaf != LeafMode::ReturnSymlink ==> !(
        fs@[end.node as int] is Symlink)),
{
    if path.unicode_len() > 0 && path.get_char(0) == '/' {
        return Err(FsError::new(FsErrorKind::EscapesRoot));
    }
    let parsed = match parse_path(path) {
        Ok(p) => p,
        Err(e) => { return Err(e); },
    };
    let mut comps = parsed.components;
    let ghost base_dv = comps.deep_view();
    if parsed.trailing {
        comps.push(Component::CurDir);
        proof {
            assert(comps.deep_view() =~= base_dv.push(SpecComponent::CurDir));
        }
    }
    proof {
        assert(comps.deep_view() =~= spec_components(path@) + (if spec_trailing(path@) {
            seq![SpecComponent::CurDir]
        } else {
            Seq::<SpecComponent>::empty()
        }));
    }
    let stack: Vec<usize> = Vec::new();
    let canon: Vec<String> = Vec::new();
    proof {
        assert(stack@ =~= Seq::<usize>::empty());
        assert(canon.deep_view() =~= Seq::<Seq<char>>::empty());
    }
    walk_from(fs, stack, canon, start, comps, MAX_SYMLINKS, leaf)
}

/// What resolving a path to its containing directory yields: everything
/// but the final component is walked following symlinks, the walk must
/// end on a directory, and the final component must be a plain name —
/// which is handed back untouched, so that the caller can act on that
/// literal name without following it. A trailing separator is rejected
/// when the caller says so, and ignored otherwise.
pub open spec fn spec_resolve_parent(
    fs: Seq<SpecNode>,
    start: usize,
    s: Seq<char>,
    reject_trailing: bool,
) -> Result<(SpecWalkEnd, Seq<char>), FsErrorKind> {
    if spec_absolute(s) {
        Err(FsErrorKind::EscapesRoot)
    } else if spec_has_nul(s) {
        Err(FsErrorKind::InvalidInput)
    } else if reject_trailing && spec_trailing(s) {
        Err(FsErrorKind::InvalidInput)
    } else {
        let comps = spec_components(s);
        if comps.len() == 0 || !(comps.last() is Normal) {
            Err(FsErrorKind::InvalidInput)
        } else {
            match spec_walk(
                fs,
                Seq::empty(),
                Seq::empty(),
                start,
                comps.drop_last(),
                MAX_SYMLINKS,
                LeafMode::Follow,
            ) {
                Err(k) => Err(k),
                Ok(e) => {
                    if !spec_is_dir(fs, e.node) {
                        Err(FsErrorKind::NotADirectory)
                    } else {
                        Ok((e, comps.last()->Normal_0))
                    }
                },
            }
        }
    }
}

/// Resolves a path to the directory containing its final name, handing
/// back that name unresolved.
pub(crate) fn resolve_parent(fs: &FsState, start: usize, path: &str, reject_trailing: bool) -> (r:
    Result<(WalkEnd, String), FsError>)
    requires
        fs.wf(),
        spec_is_dir(fs@, start),
    ensures
        match r {
            Ok(p) => spec_resolve_parent(fs@, start, path@, reject_trailing) matches Ok(sp)
                && p.0@ == sp.0 && p.1@ == sp.1 && spec_is_dir(fs@, p.0.node)
                && crate::path::spec_valid_name(p.1@),
            Err(err) => spec_resolve_parent(fs@, start, path@, reject_trailing) matches Err(k)
                && err.kind == k,
        },
{
    if path.unicode_len() > 0 && path.get_char(0) == '/' {
        return Err(FsError::new(FsErrorKind::EscapesRoot));
    }
    let parsed = match parse_path(path) {
        Ok(p) => p,
        Err(e) => { return Err(e); },
    };
    if reject_trailing && parsed.trailing {
        return Err(FsError::new(FsErrorKind::InvalidInput));
    }
    let mut comps = parsed.components;
    let ghost full = comps.deep_view();
    let last = match comps.pop() {
        Some(c) => c,
        None => { return Err(FsError::new(FsErrorKind::InvalidInput)); },
    };
    let name = match last {
        Component::Normal(n) => n,
        _ => { return Err(FsError::new(FsErrorKind::InvalidInput)); },
    };
    proof {
        assert(comps.deep_view() =~= full.drop_last());
        assert(full.last() == SpecComponent::Normal(name@));
        crate::path::lemma_components_valid(path@);
    }
    let stack: Vec<usize> = Vec::new();
    let canon: Vec<String> = Vec::new();
    proof {
        assert(stack@ =~= Seq::<usize>::empty());
        assert(canon.deep_view() =~= Seq::<Seq<char>>::empty());
    }
    let end = match walk_from(fs, stack, canon, start, comps, MAX_SYMLINKS, LeafMode::Follow) {
        Ok(e) => e,
        Err(e) => { return Err(e); },
    };
    match &fs.nodes[end.node] {
        Node::Dir { .. } => {},
        _ => { return Err(FsError::new(FsErrorKind::NotADirectory)); },
    }
    Ok((end, name))
}

} // verus!
