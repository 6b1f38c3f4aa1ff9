//! The confinement laws of the resolver, proved once and for all walks.
//! The operation contracts are all stated over [`spec_walk`] (through
//! `spec_resolve` and its relatives), so what is proved here holds of
//! every operation of the library.

use vstd::prelude::*;

use crate::error::FsErrorKind;
use crate::fs::{spec_entries_of, spec_is_dir, spec_lookup, SpecNode};
use crate::path::{spec_absolute, spec_components, spec_has_nul, spec_trailing, SpecComponent};
use crate::resolve::{spec_walk, LeafMode};

verus! {

/// The component sequence a symlink's target text is expanded to: its
/// components, plus a final `.` when the text ends in a separator.
pub open spec fn spec_symlink_comps(target: Seq<char>) -> Seq<SpecComponent> {
    spec_components(target) + (if spec_trailing(target) {
        seq![SpecComponent::CurDir]
    } else {
        Seq::<SpecComponent>::empty()
    })
}

/// A walk that still has nothing on its ancestor stack when it meets a
/// `..` fails as an escape — whatever the store holds, wherever it
/// starts, and whatever else the path would have done. `..` can only
/// move to a directory this walk has already opened, never above its
/// start.
pub proof fn lemma_parent_escapes_at_root(
    fs: Seq<SpecNode>,
    cur: usize,
    comps: Seq<SpecComponent>,
    budget: u32,
    leaf: LeafMode,
    i: int,
)
    requires
        0 <= i < comps.len(),
        comps[i] is ParentDir,
        forall|j: int| 0 <= j < i ==> comps[j] is CurDir,
    ensures
        spec_walk(fs, Seq::empty(), Seq::empty(), cur, comps, budget, leaf) matches Err(k) && k
            == FsErrorKind::EscapesRoot,
    decreases i,
{
    if i > 0 {
        lemma_parent_escapes_at_root(fs, cur, comps.drop_first(), budget, leaf, i - 1);
        assert forall|j: int| 0 <= j < i - 1 implies comps.drop_first()[j] is CurDir by {
            assert(comps.drop_first()[j] == comps[j + 1]);
        }
        assert(comps.drop_first()[i - 1] == comps[i]);
    }
}

/// A symlink in final position under the refusing policy is an
/// `UnexpectedSymlink` failure; under the following policy the walk is
/// exactly the walk of the link's target text from the directory that
/// holds the link, one unit of budget down.
pub proof fn lemma_symlink_leaf_follow_vs_nofollow(
    fs: Seq<SpecNode>,
    start: usize,
    name: Seq<char>,
    budget: u32,
)
    requires
        spec_is_dir(fs, start),
        spec_lookup(spec_entries_of(fs, start), name) matches Some(child) && child < fs.len()
            && fs[child as int] is Symlink,
        budget > 0,
        !spec_absolute(fs[spec_lookup(spec_entries_of(fs, start), name)->0 as int]->Symlink_target),
        !spec_has_nul(fs[spec_lookup(spec_entries_of(fs, start), name)->0 as int]->Symlink_target),
    ensures
        spec_walk(
            fs,
            Seq::empty(),
            Seq::empty(),
            start,
            seq![SpecComponent::Normal(name)],
            budget,
            LeafMode::RefuseSymlink,
        ) matches Err(k) && k == FsErrorKind::UnexpectedSymlink,
        spec_walk(
            fs,
            Seq::empty(),
            Seq::empty(),
            start,
            seq![SpecComponent::Normal(name)],
            budget,
            LeafMode::Follow,
        ) == spec_walk(
            fs,
            Seq::empty(),
            Seq::empty(),
            start,
            spec_symlink_comps(
                fs[spec_lookup(spec_entries_of(fs, start), name)->0 as int]->Symlink_target,
            ),
            (budget - 1) as u32,
            LeafMode::Follow,
        ),
{
    let comps = seq![SpecComponent::Normal(name)];
    assert(comps[0] == SpecComponent::Normal(name));
    assert(comps.drop_first() =~= Seq::<SpecComponent>::empty());
    let child = spec_lookup(spec_entries_of(fs, start), name)->0;
    let target = fs[child as int]->Symlink_target;
    assert(spec_symlink_comps(target) + comps.drop_first() =~= spec_symlink_comps(target));
}

/// A `..` right after a name lands back on the directory the walk came
/// from, even under the refusing policy and even when the name is a
/// symlink to a directory: the true final component is `..`, not the
/// name. Here for a name that is itself a directory.
pub proof fn lemma_nofollow_dotdot_after_dir(
    fs: Seq<SpecNode>,
    start: usize,
    name: Seq<char>,
    budget: u32,
)
    requires
        spec_is_dir(fs, start),
        spec_lookup(spec_entries_of(fs, start), name) matches Some(child) && child < fs.len()
            && fs[child as int] is Dir,
    ensures
        spec_walk(
            fs,
            Seq::empty(),
            Seq::empty(),
            start,
            seq![SpecComponent::Normal(name), SpecComponent::ParentDir],
            budget,
            LeafMode::RefuseSymlink,
        ) matches Ok(e) && e.node == start,
{
    reveal_with_fuel(spec_walk, 5);
    let comps = seq![SpecComponent::Normal(name), SpecComponent::ParentDir];
    let rest = comps.drop_first();
    assert(comps[0] == SpecComponent::Normal(name));
    assert(rest =~= seq![SpecComponent::ParentDir]);
    assert(rest[0] == SpecComponent::ParentDir);
    assert(rest.drop_first() =~= Seq::<SpecComponent>::empty());
    let child = spec_lookup(spec_entries_of(fs, start), name)->0;
    assert(Seq::<usize>::empty().push(start).drop_last() =~= Seq::<usize>::empty());
    assert(Seq::<usize>::empty().push(start).last() == start);
}

/// The same, for a name that is a symlink whose target is a single
/// plain name denoting a directory beside it: the link is followed (it
/// is not final), and the `..` pops back to the start.
pub proof fn lemma_nofollow_dotdot_after_symlink(
    fs: Seq<SpecNode>,
    start: usize,
    name: Seq<char>,
    n2: Seq<char>,
    budget: u32,
)
    requires
        spec_is_dir(fs, start),
        spec_lookup(spec_entries_of(fs, start), name) matches Some(child) && child < fs.len()
            && fs[child as int] is Symlink,
        ({
            let child = spec_lookup(spec_entries_of(fs, start), name)->0;
            let target = fs[child as int]->Symlink_target;
            &&& !spec_absolute(target)
            &&& !spec_has_nul(target)
            &&& spec_symlink_comps(target) == seq![SpecComponent::Normal(n2)]
        }),
        spec_lookup(spec_entries_of(fs, start), n2) matches Some(d2) && d2 < fs.len() && fs[d2 as int] is Dir,
        budget > 0,
    ensures
        spec_walk(
            fs,
            Seq::empty(),
            Seq::empty(),
            start,
            seq![SpecComponent::Normal(name), SpecComponent::ParentDir],
            budget,
            LeafMode::RefuseSymlink,
        ) matches Ok(e) && e.node == start,
{
    reveal_with_fuel(spec_walk, 5);
    let comps = seq![SpecComponent::Normal(name), SpecComponent::ParentDir];
    let rest = comps.drop_first();
    assert(comps[0] == SpecComponent::Normal(name));
    assert(rest =~= seq![SpecComponent::ParentDir]);
    let child = spec_lookup(spec_entries_of(fs, start), name)->0;
    let target = fs[child as int]->Symlink_target;
    let spliced = spec_symlink_comps(target) + rest;
    assert(spliced =~= seq![SpecComponent::Normal(n2), SpecComponent::ParentDir]);
    assert(spliced[0] == SpecComponent::Normal(n2));
    assert(spliced.drop_first() =~= seq![SpecComponent::ParentDir]);
    assert(spliced.drop_first()[0] == SpecComponent::ParentDir);
    assert(spliced.drop_first().drop_first() =~= Seq::<SpecComponent>::empty());
    assert(Seq::<usize>::empty().push(start).drop_last() =~= Seq::<usize>::empty());
    assert(Seq::<usize>::empty().push(start).last() == start);
}

/// A trailing `.` after a symlink to a directory makes the true final
/// component the `.`, so even the refusing policy follows the link and
/// lands on its target directory. This is what a trailing `/`, `/.` or
/// `/./` comes down to.
pub proof fn lemma_nofollow_trailing_dot_after_symlink(
    fs: Seq<SpecNode>,
    start: usize,
    name: Seq<char>,
    n2: Seq<char>,
    budget: u32,
)
    requires
        spec_is_dir(fs, start),
        spec_lookup(spec_entries_of(fs, start), name) matches Some(child) && child < fs.len()
            && fs[child as int] is Symlink,
        ({
            let child = spec_lookup(spec_entries_of(fs, start), name)->0;
            let target = fs[child as int]->Symlink_target;
            &&& !spec_absolute(target)
            &&& !spec_has_nul(target)
            &&& spec_symlink_comps(target) == seq![SpecComponent::Normal(n2)]
        }),
        spec_lookup(spec_entries_of(fs, start), n2) matches Some(d2) && d2 < fs.len() && fs[d2 as int] is Dir,
        budget > 0,
    ensures
        spec_walk(
            fs,
            Seq::empty(),
            Seq::empty(),
            start,
            seq![SpecComponent::Normal(name), SpecComponent::CurDir],
            budget,
            LeafMode::RefuseSymlink,
        ) matches Ok(e) && Some(e.node) == spec_lookup(spec_entries_of(fs, start), n2),
{
    reveal_with_fuel(spec_walk, 5);
    let comps = seq![SpecComponent::Normal(name), SpecComponent::CurDir];
    let rest = comps.drop_first();
    assert(comps[0] == SpecComponent::Normal(name));
    assert(rest =~= seq![SpecComponent::CurDir]);
    let child = spec_lookup(spec_entries_of(fs, start), name)->0;
    let target = fs[child as int]->Symlink_target;
    let spliced = spec_symlink_comps(target) + rest;
    assert(spliced =~= seq![SpecComponent::Normal(n2), SpecComponent::CurDir]);
    assert(spliced[0] == SpecComponent::Normal(n2));
    assert(spliced.drop_first() =~= seq![SpecComponent::CurDir]);
    assert(spliced.drop_first()[0] == SpecComponent::CurDir);
    assert(spliced.drop_first().drop_first() =~= Seq::<SpecComponent>::empty());
}

/// A walk that succeeds under the refusing policy succeeds identically
/// under the following policy: the two differ only where the final
/// component is a symlink, and there the refusing policy fails.
pub proof fn lemma_nofollow_agrees_with_follow(
    fs: Seq<SpecNode>,
    stack: Seq<usize>,
    canon: Seq<Seq<char>>,
    cur: usize,
    comps: Seq<SpecComponent>,
    budget: u32,
)
    ensures
        spec_walk(fs, stack, canon, cur, comps, budget, LeafMode::RefuseSymlink) matches Ok(e)
            ==> spec_walk(fs, stack, canon, cur, comps, budget, LeafMode::Follow) matches Ok(e2)
            && e2 == e,
    decreases budget, comps.len(),
{
    if comps.len() > 0 {
        let rest = comps.drop_first();
        match comps[0] {
            SpecComponent::CurDir => {
                lemma_nofollow_agrees_with_follow(fs, stack, canon, cur, rest, budget);
            },
            SpecComponent::ParentDir => {
                if stack.len() > 0 {
                    lemma_nofollow_agrees_with_follow(
                        fs,
                        stack.drop_last(),
                        canon.drop_last(),
                        stack.last(),
                        rest,
                        budget,
                    );
                }
            },
            SpecComponent::Normal(name) => {
                if spec_is_dir(fs, cur) {
                    match spec_lookup(spec_entries_of(fs, cur), name) {
                        None => {},
                        Some(child) => {
                            if child < fs.len() {
                                if fs[child as int] is Symlink {
                                    let target = fs[child as int]->Symlink_target;
                                    if rest.len() > 0 && budget > 0 && !spec_absolute(target)
                                        && !spec_has_nul(target) {
                                        let tcomps = spec_components(target) + (if spec_trailing(
                                            target,
                                        ) {
                                            seq![SpecComponent::CurDir]
                                        } else {
                                            Seq::<SpecComponent>::empty()
                                        });
                                        lemma_nofollow_agrees_with_follow(
                                            fs,
                                            stack,
                                            canon,
                                            cur,
                                            tcomps + rest,
                                            (budget - 1) as u32,
                                        );
                                    }
                                } else if rest.len() > 0 && fs[child as int] is Dir {
                                    lemma_nofollow_agrees_with_follow(
                                        fs,
                                        stack.push(cur),
                                        canon.push(name),
                                        child,
                                        rest,
                                        budget,
                                    );
                                }
                            }
                        },
                    }
                }
            },
        }
    }
}

/// Reading through a symlink whose target text is absolute fails as an
/// escape: the target is never resolved against anything.
pub proof fn lemma_absolute_symlink_escapes(
    fs: Seq<SpecNode>,
    start: usize,
    name: Seq<char>,
    budget: u32,
)
    requires
        spec_is_dir(fs, start),
        spec_lookup(spec_entries_of(fs, start), name) matches Some(child) && child < fs.len()
            && fs[child as int] is Symlink && spec_absolute(fs[child as int]->Symlink_target),
        budget > 0,
    ensures
        spec_walk(
            fs,
            Seq::empty(),
            Seq::empty(),
            start,
            seq![SpecComponent::Normal(name)],
            budget,
            LeafMode::Follow,
        ) matches Err(k) && k == FsErrorKind::EscapesRoot,
{
    let comps = seq![SpecComponent::Normal(name)];
    assert(comps[0] == SpecComponent::Normal(name));
    assert(comps.drop_first() =~= Seq::<SpecComponent>::empty());
}

/// Every name a walk records on its canonical trail is a valid entry
/// name, provided the trail began with valid ones and every plain
/// component carries one: the walk only ever records looked-up names.
pub proof fn lemma_walk_canon_names(
    fs: Seq<SpecNode>,
    stack: Seq<usize>,
    canon: Seq<Seq<char>>,
    cur: usize,
    comps: Seq<SpecComponent>,
    budget: u32,
    leaf: LeafMode,
)
    requires
        stack.len() == canon.len(),
        forall|j: int| 0 <= j < canon.len() ==> crate::path::spec_valid_name(#[trigger] canon[j]),
        forall|j: int|
            0 <= j < comps.len() && (#[trigger] comps[j]) is Normal
                ==> crate::path::spec_valid_name(comps[j]->Normal_0),
    ensures
        spec_walk(fs, stack, canon, cur, comps, budget, leaf) matches Ok(e) ==> forall|j: int|
            0 <= j < e.canon.len() ==> crate::path::spec_valid_name(#[trigger] e.canon[j]),
    decreases budget, comps.len(),
{
    if comps.len() > 0 {
        let rest = comps.drop_first();
        assert forall|j: int|
            0 <= j < rest.len() && (#[trigger] rest[j]) is Normal implies crate::path::spec_valid_name(
            rest[j]->Normal_0,
        ) by {
            assert(rest[j] == comps[j + 1]);
        }
        match comps[0] {
            SpecComponent::CurDir => {
                lemma_walk_canon_names(fs, stack, canon, cur, rest, budget, leaf);
            },
            SpecComponent::ParentDir => {
                if stack.len() > 0 {
                    assert forall|j: int|
                        0 <= j < canon.drop_last().len() implies crate::path::spec_valid_name(
                        #[trigger] canon.drop_last()[j],
                    ) by {
                        assert(canon.drop_last()[j] == canon[j]);
                    }
                    lemma_walk_canon_names(
                        fs,
                        stack.drop_last(),
                        canon.drop_last(),
                        stack.last(),
                        rest,
                        budget,
                        leaf,
                    );
                }
            },
            SpecComponent::Normal(name) => {
                assert(comps[0]->Normal_0 == name);
                if spec_is_dir(fs, cur) {
                    match spec_lookup(spec_entries_of(fs, cur), name) {
                        None => {},
                        Some(child) => {
                            if child < fs.len() {
                                if fs[child as int] is Symlink {
                                    let target = fs[child as int]->Symlink_target;
                                    if budget > 0 && !spec_absolute(target) && !spec_has_nul(
                                        target,
                                    ) {
                                        let tcomps = spec_symlink_comps(target);
                                        crate::path::lemma_components_valid(target);
                                        assert forall|j: int|
                                            0 <= j < (tcomps + rest).len() && (#[trigger] (tcomps
                                                + rest)[j]) is Normal implies crate::path::spec_valid_name(
                                            (tcomps + rest)[j]->Normal_0,
                                        ) by {
                                            if j < tcomps.len() {
                                                if j < spec_components(target).len() {
                                                    assert((tcomps + rest)[j] == spec_components(
                                                        target,
                                                    )[j]);
                                                } else {
                                                    assert((tcomps + rest)[j]
                                                        == SpecComponent::CurDir);
                                                }
                                            } else {
                                                assert((tcomps + rest)[j] == rest[j
                                                    - tcomps.len()]);
                                            }
                                        }
                                        lemma_walk_canon_names(
                                            fs,
                                            stack,
                                            canon,
                                            cur,
                                            tcomps + rest,
                                            (budget - 1) as u32,
                                            leaf,
                                        );
                                    }
                                } else if rest.len() > 0 && fs[child as int] is Dir {
                                    assert forall|j: int|
                                        0 <= j < canon.push(name).len() implies crate::path::spec_valid_name(
                                        #[trigger] canon.push(name)[j],
                                    ) by {
                                        if j < canon.len() {
                                            assert(canon.push(name)[j] == canon[j]);
                                        }
                                    }
                                    lemma_walk_canon_names(
                                        fs,
                                        stack.push(cur),
                                        canon.push(name),
                                        child,
                                        rest,
                                        budget,
                                        leaf,
                                    );
                                }
                            }
                        },
                    }
                }
            },
        }
    }
}

/// Joining valid names with separators yields text that neither starts
/// with a separator nor holds a NUL.
pub proof fn lemma_join_valid(canon: Seq<Seq<char>>)
    requires
        forall|j: int| 0 <= j < canon.len() ==> crate::path::spec_valid_name(#[trigger] canon[j]),
    ensures
        !spec_absolute(crate::dir::spec_join(canon)),
        !spec_has_nul(crate::dir::spec_join(canon)),
        canon.len() > 0 ==> crate::dir::spec_join(canon).len() > 0,
    decreases canon.len(),
{
    let t = crate::dir::spec_join(canon);
    if canon.len() == 0 {
    } else if canon.len() == 1 {
        assert(t == canon[0]);
        if spec_has_nul(t) {
            let i = choose|i: int| 0 <= i < t.len() && t[i] == '\0';
            assert(!crate::path::spec_is_sep(canon[0][i]) && canon[0][i] != '\0');
        }
        assert(!crate::path::spec_is_sep(canon[0][0]));
    } else {
        assert forall|j: int|
            0 <= j < canon.drop_last().len() implies crate::path::spec_valid_name(
            #[trigger] canon.drop_last()[j],
        ) by {
            assert(canon.drop_last()[j] == canon[j]);
        }
        lemma_join_valid(canon.drop_last());
        let a = crate::dir::spec_join(canon.drop_last());
        let last = canon.last();
        assert(t == a + seq!['/'] + last);
        assert(t[0] == a[0]);
        if spec_has_nul(t) {
            let i = choose|i: int| 0 <= i < t.len() && t[i] == '\0';
            if i < a.len() {
                assert(a[i] == '\0');
            } else if i == a.len() {
                assert(t[i] == '/');
            } else {
                assert(t[i] == last[i - a.len() - 1]);
                assert(last[i - a.len() - 1] != '\0');
            }
        }
    }
}

/// What `canonicalize` reports is relative text, never an absolute
/// path, and free of NULs: it is the valid names actually walked,
/// joined by separators.
pub proof fn lemma_canonicalize_relative(fs: Seq<SpecNode>, start: usize, s: Seq<char>)
    ensures
        crate::dir::spec_canonicalize(fs, start, s) matches Ok(t) ==> !spec_absolute(t)
            && !spec_has_nul(t),
{
    if !spec_absolute(s) && !spec_has_nul(s) {
        let comps = spec_components(s) + (if spec_trailing(s) {
            seq![SpecComponent::CurDir]
        } else {
            Seq::<SpecComponent>::empty()
        });
        crate::path::lemma_components_valid(s);
        assert forall|j: int|
            0 <= j < comps.len() && (#[trigger] comps[j]) is Normal implies crate::path::spec_valid_name(
            comps[j]->Normal_0,
        ) by {
            if j < spec_components(s).len() {
                assert(comps[j] == spec_components(s)[j]);
            } else {
                assert(comps[j] == SpecComponent::CurDir);
            }
        }
        lemma_walk_canon_names(
            fs,
            Seq::empty(),
            Seq::empty(),
            start,
            comps,
            crate::resolve::MAX_SYMLINKS,
            LeafMode::Follow,
        );
        match spec_walk(
            fs,
            Seq::empty(),
            Seq::empty(),
            start,
            comps,
            crate::resolve::MAX_SYMLINKS,
            LeafMode::Follow,
        ) {
            Err(_) => {},
            Ok(e) => {
                lemma_join_valid(e.canon);
            },
        }
    }
}

/// A symlink that names itself exhausts the expansion budget, whatever
/// the budget is: a cycle stands for a chain longer than any bound, and
/// the walk fails with the symlink-limit error instead of spinning.
pub proof fn lemma_symlink_cycle_exhausts(
    fs: Seq<SpecNode>,
    start: usize,
    name: Seq<char>,
    budget: u32,
)
    requires
        spec_is_dir(fs, start),
        spec_lookup(spec_entries_of(fs, start), name) matches Some(child) && child < fs.len()
            && fs[child as int] is Symlink,
        ({
            let child = spec_lookup(spec_entries_of(fs, start), name)->0;
            let target = fs[child as int]->Symlink_target;
            &&& !spec_absolute(target)
            &&& !spec_has_nul(target)
            &&& spec_symlink_comps(target) == seq![SpecComponent::Normal(name)]
        }),
    ensures
        spec_walk(
            fs,
            Seq::empty(),
            Seq::empty(),
            start,
            seq![SpecComponent::Normal(name)],
            budget,
            LeafMode::Follow,
        ) matches Err(k) && k == FsErrorKind::TooManySymlinks,
    decreases budget,
{
    let comps = seq![SpecComponent::Normal(name)];
    assert(comps[0] == SpecComponent::Normal(name));
    assert(comps.drop_first() =~= Seq::<SpecComponent>::empty());
    let child = spec_lookup(spec_entries_of(fs, start), name)->0;
    let target = fs[child as int]->Symlink_target;
    if budget > 0 {
        assert(spec_symlink_comps(target) + comps.drop_first() =~= comps);
        lemma_symlink_cycle_exhausts(fs, start, name, (budget - 1) as u32);
    }
}

} // verus!
