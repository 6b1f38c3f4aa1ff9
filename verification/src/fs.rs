//! The filesystem store: an append-only arena of nodes. A directory holds
//! named entries pointing at other nodes; handles are indices into the
//! arena, so a handle denotes the same object for as long as it is held,
//! and unlinking a name never invalidates a handle.

use vstd::prelude::*;

use crate::path::{spec_has_nul, spec_valid_name};

verus! {

/// One named slot of a directory.
pub struct Entry {
    pub name: String,
    pub node: usize,
}

/// The mathematical form of an entry.
#[verifier::ext_equal]
pub struct SpecEntry {
    pub name: Seq<char>,
    pub node: usize,
}

impl View for Entry {
    type V = SpecEntry;

    open spec fn view(&self) -> SpecEntry {
        SpecEntry { name: self.name@, node: self.node }
    }
}

impl DeepView for Entry {
    type V = SpecEntry;

    open spec fn deep_view(&self) -> SpecEntry {
        self.view()
    }
}

/// One filesystem object.
pub enum Node {
    /// A directory: its entries in creation order, and its permission bits.
    Dir { entries: Vec<Entry>, mode: u32 },
    /// A regular file: its bytes and its permission bits.
    File { data: Vec<u8>, mode: u32 },
    /// A symbolic link: the literal target text it was created with.
    Symlink { target: String },
}

/// The mathematical form of a node.
#[verifier::ext_equal]
pub enum SpecNode {
    Dir { entries: Seq<SpecEntry>, mode: u32 },
    File { data: Seq<u8>, mode: u32 },
    Symlink { target: Seq<char> },
}

impl View for Node {
    type V = SpecNode;

    open spec fn view(&self) -> SpecNode {
        match self {
            Node::Dir { entries, mode } => SpecNode::Dir {
                entries: entries.deep_view(),
                mode: *mode,
            },
            Node::File { data, mode } => SpecNode::File { data: data@, mode: *mode },
            Node::Symlink { target } => SpecNode::Symlink { target: target@ },
        }
    }
}

impl DeepView for Node {
    type V = SpecNode;

    open spec fn deep_view(&self) -> SpecNode {
        self.view()
    }
}

/// The whole store. Index 0 is the root directory.
pub struct FsState {
    pub nodes: Vec<Node>,
}

impl View for FsState {
    type V = Seq<SpecNode>;

    open spec fn view(&self) -> Seq<SpecNode> {
        self.nodes.deep_view()
    }
}

/// The entries of a directory node, or the empty sequence for anything
/// else.
pub open spec fn spec_entries_of(fs: Seq<SpecNode>, node: usize) -> Seq<SpecEntry> {
    if node < fs.len() && fs[node as int] is Dir {
        fs[node as int]->Dir_entries
    } else {
        Seq::empty()
    }
}

/// Whether `node` indexes a directory of the store.
pub open spec fn spec_is_dir(fs: Seq<SpecNode>, node: usize) -> bool {
    node < fs.len() && fs[node as int] is Dir
}

/// The node a name denotes in an entry list: the first match.
pub open spec fn spec_lookup(entries: Seq<SpecEntry>, name: Seq<char>) -> Option<usize>
    decreases entries.len(),
{
    if entries.len() == 0 {
        None
    } else if entries[0].name == name {
        Some(entries[0].node)
    } else {
        spec_lookup(entries.drop_first(), name)
    }
}

/// The entry list with the first entry of this name removed.
pub open spec fn spec_remove_entry(entries: Seq<SpecEntry>, name: Seq<char>) -> Seq<SpecEntry>
    decreases entries.len(),
{
    if entries.len() == 0 {
        entries
    } else if entries[0].name == name {
        entries.drop_first()
    } else {
        seq![entries[0]] + spec_remove_entry(entries.drop_first(), name)
    }
}

/// The entry list with the first entry of this name re-pointed at `node`.
pub open spec fn spec_replace_entry(entries: Seq<SpecEntry>, name: Seq<char>, node: usize) -> Seq<
    SpecEntry,
>
    decreases entries.len(),
{
    if entries.len() == 0 {
        entries
    } else if entries[0].name == name {
        seq![SpecEntry { name, node }] + entries.drop_first()
    } else {
        seq![entries[0]] + spec_replace_entry(entries.drop_first(), name, node)
    }
}

/// Whether one node of the store is well-formed: a directory's entries
/// carry valid, pairwise-distinct names and in-bounds targets, and a
/// symlink's target text is NUL-free.
pub open spec fn spec_wf_node(fs: Seq<SpecNode>, i: int) -> bool {
    match fs[i] {
        SpecNode::Dir { entries, .. } => {
            &&& forall|k: int|
                0 <= k < entries.len() ==> (#[trigger] entries[k]).node < fs.len()
                    && spec_valid_name(entries[k].name)
            &&& forall|k1: int, k2: int|
                0 <= k1 < k2 < entries.len() ==> (#[trigger] entries[k1]).name != (
                #[trigger] entries[k2]).name
        },
        SpecNode::File { .. } => true,
        SpecNode::Symlink { target } => !spec_has_nul(target),
    }
}

/// Whether the whole store is well-formed: every node is, and the root is
/// a directory.
pub open spec fn spec_wf(fs: Seq<SpecNode>) -> bool {
    &&& fs.len() > 0
    &&& fs[0] is Dir
    &&& forall|i: int| 0 <= i < fs.len() ==> spec_wf_node(fs, i)
}

impl FsState {
    /// Whether this store is well-formed. Every operation of the library
    /// keeps it so.
    pub open spec fn wf(&self) -> bool {
        spec_wf(self@)
    }

    /// Creates a store holding one empty root directory.
    pub fn new() -> (r: FsState)
        ensures
            r.wf(),
            r@.len() == 1,
            r@[0] == (SpecNode::Dir { entries: Seq::<SpecEntry>::empty(), mode: 0o777u32 }),
    {
        let mut nodes: Vec<Node> = Vec::new();
        nodes.push(Node::Dir { entries: Vec::new(), mode: 0o777 });
        let r = FsState { nodes };
        proof {
            assert(r@ =~~= seq![
                SpecNode::Dir { entries: Seq::<SpecEntry>::empty(), mode: 0o777u32 },
            ]);
            let entries = Seq::<SpecEntry>::empty();
            assert(spec_wf_node(r@, 0));
        }
        r
    }

    /// How many nodes the store holds. Nodes are never deleted, so indices
    /// held by handles stay valid.
    pub fn node_count(&self) -> (r: usize)
        ensures
            r == self@.len(),
    {
        self.nodes.len()
    }
}

/// A failed lookup means no entry carries the name.
pub proof fn lemma_lookup_none_absent(entries: Seq<SpecEntry>, name: Seq<char>)
    requires
        spec_lookup(entries, name) is None,
    ensures
        forall|k: int| 0 <= k < entries.len() ==> (#[trigger] entries[k]).name != name,
    decreases entries.len(),
{
    if entries.len() > 0 {
        lemma_lookup_none_absent(entries.drop_first(), name);
        assert forall|k: int| 0 <= k < entries.len() implies (#[trigger] entries[k]).name != name
        by {
            if k > 0 {
                assert(entries.drop_first()[k - 1] == entries[k]);
            }
        }
    }
}

/// Removing the first entry of a name, found at index `k` with no earlier
/// match, is removal at `k`.
pub proof fn lemma_remove_entry_at(entries: Seq<SpecEntry>, name: Seq<char>, k: int)
    requires
        0 <= k < entries.len(),
        entries[k].name == name,
        forall|j: int| 0 <= j < k ==> (#[trigger] entries[j]).name != name,
    ensures
        spec_remove_entry(entries, name) =~= entries.remove(k),
    decreases k,
{
    if k == 0 {
        assert(entries.remove(0) =~= entries.drop_first());
    } else {
        lemma_remove_entry_at(entries.drop_first(), name, k - 1);
        assert(entries.drop_first()[k - 1] == entries[k]);
        assert(entries.drop_first().remove(k - 1) =~= entries.remove(k).drop_first());
        assert(spec_remove_entry(entries, name) =~= seq![entries[0]] + spec_remove_entry(
            entries.drop_first(),
            name,
        ));
    }
}

/// Re-pointing the first entry of a name, found at index `k` with no
/// earlier match, is an update at `k`.
pub proof fn lemma_replace_entry_at(entries: Seq<SpecEntry>, name: Seq<char>, node: usize, k: int)
    requires
        0 <= k < entries.len(),
        entries[k].name == name,
        forall|j: int| 0 <= j < k ==> (#[trigger] entries[j]).name != name,
    ensures
        spec_replace_entry(entries, name, node) =~= entries.update(k, SpecEntry { name, node }),
    decreases k,
{
    if k == 0 {
    } else {
        lemma_replace_entry_at(entries.drop_first(), name, node, k - 1);
        assert(entries.drop_first()[k - 1] == entries[k]);
        assert(entries.drop_first().update(k - 1, SpecEntry { name, node }) =~= entries.update(
            k,
            SpecEntry { name, node },
        ).drop_first());
    }
}

/// Removing one name leaves lookups of any other name unchanged.
pub proof fn lemma_lookup_remove_other(entries: Seq<SpecEntry>, a: Seq<char>, b: Seq<char>)
    requires
        a != b,
    ensures
        spec_lookup(spec_remove_entry(entries, a), b) == spec_lookup(entries, b),
    decreases entries.len(),
{
    if entries.len() > 0 {
        let e0 = entries[0];
        if e0.name == a {
        } else {
            lemma_lookup_remove_other(entries.drop_first(), a, b);
            let r = seq![e0] + spec_remove_entry(entries.drop_first(), a);
            assert(r[0] == e0);
            assert(r.drop_first() =~= spec_remove_entry(entries.drop_first(), a));
        }
    }
}

/// The entry list with every reference to one node dropped.
pub open spec fn spec_drop_refs(entries: Seq<SpecEntry>, node: usize) -> Seq<SpecEntry>
    decreases entries.len(),
{
    if entries.len() == 0 {
        entries
    } else if entries[0].node == node {
        spec_drop_refs(entries.drop_first(), node)
    } else {
        seq![entries[0]] + spec_drop_refs(entries.drop_first(), node)
    }
}

/// Dropping references distributes over appending one entry.
pub proof fn lemma_drop_refs_push(entries: Seq<SpecEntry>, node: usize, e: SpecEntry)
    ensures
        spec_drop_refs(entries.push(e), node) =~= spec_drop_refs(entries, node) + (if e.node
            != node {
            seq![e]
        } else {
            Seq::<SpecEntry>::empty()
        }),
    decreases entries.len(),
{
    let suffix: Seq<SpecEntry> = if e.node != node {
        seq![e]
    } else {
        Seq::<SpecEntry>::empty()
    };
    if entries.len() == 0 {
        assert(entries.push(e)[0] == e);
        assert(entries.push(e).drop_first() =~= Seq::<SpecEntry>::empty());
        if e.node != node {
            assert(spec_drop_refs(entries.push(e), node) =~= seq![e] + spec_drop_refs(
                Seq::<SpecEntry>::empty(),
                node,
            ));
            assert(seq![e] + spec_drop_refs(Seq::<SpecEntry>::empty(), node) =~= suffix);
        }
    } else {
        lemma_drop_refs_push(entries.drop_first(), node, e);
        assert(entries.push(e)[0] == entries[0]);
        assert(entries.push(e).drop_first() =~= entries.drop_first().push(e));
        if entries[0].node != node {
            assert(spec_drop_refs(entries.push(e), node) =~= seq![entries[0]] + spec_drop_refs(
                entries.drop_first().push(e),
                node,
            ));
            assert(seq![entries[0]] + (spec_drop_refs(entries.drop_first(), node) + suffix) =~= (
            seq![entries[0]] + spec_drop_refs(entries.drop_first(), node)) + suffix);
        }
    }
}

/// Dropping references keeps every remaining entry an entry of the old
/// list, and keeps names pairwise distinct.
pub proof fn lemma_drop_refs_wf(entries: Seq<SpecEntry>, node: usize)
    requires
        forall|k1: int, k2: int|
            0 <= k1 < k2 < entries.len() ==> (#[trigger] entries[k1]).name != (
            #[trigger] entries[k2]).name,
    ensures
        forall|k: int|
            0 <= k < spec_drop_refs(entries, node).len() ==> exists|j: int|
                0 <= j < entries.len() && entries[j] == #[trigger] spec_drop_refs(
                    entries,
                    node,
                )[k],
        forall|k1: int, k2: int|
            0 <= k1 < k2 < spec_drop_refs(entries, node).len() ==> (#[trigger] spec_drop_refs(
                entries,
                node,
            )[k1]).name != (#[trigger] spec_drop_refs(entries, node)[k2]).name,
    decreases entries.len(),
{
    if entries.len() > 0 {
        let rest = entries.drop_first();
        lemma_drop_refs_wf(rest, node);
        let r = spec_drop_refs(entries, node);
        if entries[0].node == node {
            assert forall|k: int| 0 <= k < r.len() implies exists|j: int|
                0 <= j < entries.len() && entries[j] == #[trigger] r[k] by {
                assert(r[k] == spec_drop_refs(rest, node)[k]);
                let j = choose|j: int|
                    0 <= j < rest.len() && rest[j] == spec_drop_refs(rest, node)[k];
                assert(entries[j + 1] == r[k]);
            }
        } else {
            let tail = spec_drop_refs(rest, node);
            assert(r =~= seq![entries[0]] + tail);
            assert forall|k: int| 0 <= k < r.len() implies exists|j: int|
                0 <= j < entries.len() && entries[j] == #[trigger] r[k] by {
                if k == 0 {
                    assert(entries[0] == r[0]);
                } else {
                    assert(r[k] == spec_drop_refs(rest, node)[k - 1]);
                    let j = choose|j: int|
                        0 <= j < rest.len() && rest[j] == spec_drop_refs(rest, node)[k - 1];
                    assert(entries[j + 1] == r[k]);
                }
            }
            assert forall|k1: int, k2: int| 0 <= k1 < k2 < r.len() implies (
            #[trigger] r[k1]).name != (#[trigger] r[k2]).name by {
                if k1 == 0 {
                    assert(r[k2] == spec_drop_refs(rest, node)[k2 - 1]);
                    let j = choose|j: int|
                        0 <= j < rest.len() && rest[j] == spec_drop_refs(rest, node)[k2 - 1];
                    assert(rest[j] == entries[j + 1]);
                    assert(entries[0].name != entries[j + 1].name);
                } else {
                    assert(r[k1] == tail[k1 - 1] && r[k2] == tail[k2 - 1]);
                }
            }
        }
    }
}

/// A successful lookup names some entry of the list.
pub proof fn lemma_lookup_in_entries(entries: Seq<SpecEntry>, name: Seq<char>)
    requires
        spec_lookup(entries, name) is Some,
    ensures
        exists|k: int|
            0 <= k < entries.len() && (#[trigger] entries[k]).name == name && Some(
                entries[k].node,
            ) == spec_lookup(entries, name),
    decreases entries.len(),
{
    if entries.len() > 0 && entries[0].name != name {
        lemma_lookup_in_entries(entries.drop_first(), name);
        let k = choose|k: int|
            0 <= k < entries.drop_first().len() && (#[trigger] entries.drop_first()[k]).name
                == name && Some(entries.drop_first()[k].node) == spec_lookup(
                entries.drop_first(),
                name,
            );
        assert(entries[k + 1] == entries.drop_first()[k]);
    }
}

/// In a well-formed store, a lookup in a directory yields an in-bounds
/// node.
pub proof fn lemma_lookup_valid(fs: Seq<SpecNode>, dir: usize, name: Seq<char>)
    requires
        spec_wf(fs),
        spec_is_dir(fs, dir),
        spec_lookup(spec_entries_of(fs, dir), name) is Some,
    ensures
        spec_lookup(spec_entries_of(fs, dir), name) matches Some(child) && child < fs.len(),
{
    lemma_lookup_in_entries(spec_entries_of(fs, dir), name);
    assert(spec_wf_node(fs, dir as int));
}

/// Looks a name up in the entries of a directory node.
#[verifier::loop_isolation(false)]
pub(crate) fn find_entry(fs: &FsState, dir: usize, name: &String) -> (r: Option<usize>)
    requires
        spec_is_dir(fs@, dir),
    ensures
        match r {
            Some(node) => spec_lookup(spec_entries_of(fs@, dir), name@) == Some(node),
            None => spec_lookup(spec_entries_of(fs@, dir), name@) is None,
        },
{
    let entries = match &fs.nodes[dir] {
        Node::Dir { entries, .. } => entries,
        _ => vstd::pervasive::unreached(),
    };
    let ghost all = spec_entries_of(fs@, dir);
    proof {
        assert(all =~= entries.deep_view());
        assert(all.skip(0) =~= all);
    }
    let n = entries.len();
    let mut k: usize = 0;
    while k < n
        invariant
            k <= n,
            n == entries.len(),
            all == entries.deep_view(),
            spec_lookup(all, name@) == spec_lookup(all.skip(k as int), name@),
        decreases n - k,
    {
        let e = &entries[k];
        proof {
            assert(all.skip(k as int)[0] == all[k as int]);
        }
        if e.name == *name {
            proof {
                assert(spec_lookup(all.skip(k as int), name@) == Some(all[k as int].node));
            }
            return Some(e.node);
        }
        proof {
            assert(all.skip(k as int).drop_first() =~= all.skip(k + 1));
        }
        k += 1;
    }
    proof {
        assert(all.skip(n as int) =~= Seq::<SpecEntry>::empty());
    }
    None
}

/// Finds the index of the first entry of a name in a directory node.
#[verifier::loop_isolation(false)]
pub(crate) fn find_entry_index(fs: &FsState, dir: usize, name: &String) -> (r: Option<usize>)
    requires
        spec_is_dir(fs@, dir),
    ensures
        match r {
            Some(k) => k < spec_entries_of(fs@, dir).len() && spec_entries_of(fs@, dir)[k as int].name
                == name@ && forall|j: int|
                0 <= j < k ==> (#[trigger] spec_entries_of(fs@, dir)[j]).name != name@,
            None => forall|j: int|
                0 <= j < spec_entries_of(fs@, dir).len() ==> (#[trigger] spec_entries_of(fs@, dir)[j]).name
                    != name@,
        },
{
    let entries = match &fs.nodes[dir] {
        Node::Dir { entries, .. } => entries,
        _ => vstd::pervasive::unreached(),
    };
    let ghost all = spec_entries_of(fs@, dir);
    proof {
        assert(all =~= entries.deep_view());
    }
    let n = entries.len();
    let mut k: usize = 0;
    while k < n
        invariant
            k <= n,
            forall|j: int| 0 <= j < k ==> (#[trigger] all[j]).name != name@,
        decreases n - k,
    {
        let e = &entries[k];
        if e.name == *name {
            return Some(k);
        }
        k += 1;
    }
    None
}

/// Adds a fresh node to the store and links it under `name` in `dir`.
/// Returns the new node's index.
pub(crate) fn link_new_node(fs: &mut FsState, dir: usize, name: String, node: Node) -> (idx: usize)
    requires
        old(fs).wf(),
        spec_is_dir(old(fs)@, dir),
        spec_valid_name(name@),
        spec_lookup(spec_entries_of(old(fs)@, dir), name@) is None,
        match node@ {
            SpecNode::Dir { entries, .. } => entries.len() == 0,
            SpecNode::File { .. } => true,
            SpecNode::Symlink { target } => !spec_has_nul(target),
        },
    ensures
        final(fs).wf(),
        idx == old(fs)@.len(),
        final(fs)@ =~= old(fs)@.update(
            dir as int,
            SpecNode::Dir {
                entries: spec_entries_of(old(fs)@, dir).push(SpecEntry { name: name@, node: idx }),
                mode: old(fs)@[dir as int]->Dir_mode,
            },
        ).push(node@),
{
    let ghost old_fs = fs@;
    let ghost name_view = name@;
    let idx = fs.nodes.len();
    match &mut fs.nodes[dir] {
        Node::Dir { entries, .. } => {
            entries.push(Entry { name, node: idx });
        },
        _ => vstd::pervasive::unreached(),
    }
    fs.nodes.push(node);
    proof {
        let target = old_fs.update(
            dir as int,
            SpecNode::Dir {
                entries: spec_entries_of(old_fs, dir).push(SpecEntry { name: name_view, node: idx }),
                mode: old_fs[dir as int]->Dir_mode,
            },
        ).push(node@);
        assert(fs@ =~~= target);
        lemma_lookup_none_absent(spec_entries_of(old_fs, dir), name_view);
        assert(spec_wf_node(old_fs, dir as int));
        assert forall|i: int| 0 <= i < fs@.len() implies spec_wf_node(fs@, i) by {
            if i == dir {
                let es = fs@[dir as int]->Dir_entries;
                let old_es = spec_entries_of(old_fs, dir);
                assert(es =~= old_es.push(SpecEntry { name: name_view, node: idx }));
                assert forall|k1: int, k2: int| 0 <= k1 < k2 < es.len() implies (
                #[trigger] es[k1]).name != (#[trigger] es[k2]).name by {
                    if k2 == es.len() - 1 {
                        assert(old_es[k1].name != name_view);
                    }
                }
            } else if i == old_fs.len() {
                assert(fs@[i] == node@);
            } else {
                assert(fs@[i] == old_fs[i]);
                assert(spec_wf_node(old_fs, i));
            }
        }
    }
    idx
}

/// Links an already-present node under a fresh name in `dir`; this is how
/// a hard link or a rename target comes to be.
pub(crate) fn link_existing(fs: &mut FsState, dir: usize, name: String, node: usize)
    requires
        old(fs).wf(),
        spec_is_dir(old(fs)@, dir),
        spec_valid_name(name@),
        spec_lookup(spec_entries_of(old(fs)@, dir), name@) is None,
        node < old(fs)@.len(),
    ensures
        final(fs).wf(),
        final(fs)@ =~= old(fs)@.update(
            dir as int,
            SpecNode::Dir {
                entries: spec_entries_of(old(fs)@, dir).push(SpecEntry { name: name@, node }),
                mode: old(fs)@[dir as int]->Dir_mode,
            },
        ),
{
    let ghost old_fs = fs@;
    let ghost name_view = name@;
    match &mut fs.nodes[dir] {
        Node::Dir { entries, .. } => {
            entries.push(Entry { name, node });
        },
        _ => vstd::pervasive::unreached(),
    }
    proof {
        let target = old_fs.update(
            dir as int,
            SpecNode::Dir {
                entries: spec_entries_of(old_fs, dir).push(SpecEntry { name: name_view, node }),
                mode: old_fs[dir as int]->Dir_mode,
            },
        );
        assert(fs@ =~~= target);
        lemma_lookup_none_absent(spec_entries_of(old_fs, dir), name_view);
        assert(spec_wf_node(old_fs, dir as int));
        assert forall|i: int| 0 <= i < fs@.len() implies spec_wf_node(fs@, i) by {
            if i == dir {
                let es = fs@[dir as int]->Dir_entries;
                let old_es = spec_entries_of(old_fs, dir);
                assert(es =~= old_es.push(SpecEntry { name: name_view, node }));
                assert forall|k1: int, k2: int| 0 <= k1 < k2 < es.len() implies (
                #[trigger] es[k1]).name != (#[trigger] es[k2]).name by {
                    if k2 == es.len() - 1 {
                        assert(old_es[k1].name != name_view);
                    }
                }
            } else {
                assert(fs@[i] == old_fs[i]);
                assert(spec_wf_node(old_fs, i));
            }
        }
    }
}

/// Replaces the bytes and permission bits of a file node.
pub(crate) fn set_file(fs: &mut FsState, node: usize, data: Vec<u8>, mode: u32)
    requires
        old(fs).wf(),
        node < old(fs)@.len(),
        old(fs)@[node as int] is File,
    ensures
        final(fs).wf(),
        final(fs)@ =~= old(fs)@.update(node as int, SpecNode::File { data: data@, mode }),
{
    let ghost old_fs = fs@;
    let ghost new_data = data@;
    match &mut fs.nodes[node] {
        Node::File { data: d, mode: m } => {
            *d = data;
            *m = mode;
        },
        _ => vstd::pervasive::unreached(),
    }
    proof {
        let target = old_fs.update(node as int, SpecNode::File { data: new_data, mode });
        assert(fs@ =~~= target);
        assert forall|i: int| 0 <= i < fs@.len() implies spec_wf_node(fs@, i) by {
            if i != node {
                assert(fs@[i] == old_fs[i]);
            }
            assert(spec_wf_node(old_fs, i));
        }
    }
}

/// Removes the entry of a name from a directory. The node it pointed at
/// stays in the store: handles to it keep working.
pub(crate) fn unlink_entry(fs: &mut FsState, dir: usize, name: &String)
    requires
        old(fs).wf(),
        spec_is_dir(old(fs)@, dir),
        spec_lookup(spec_entries_of(old(fs)@, dir), name@) is Some,
    ensures
        final(fs).wf(),
        final(fs)@ =~= old(fs)@.update(
            dir as int,
            SpecNode::Dir {
                entries: spec_remove_entry(spec_entries_of(old(fs)@, dir), name@),
                mode: old(fs)@[dir as int]->Dir_mode,
            },
        ),
{
    let ghost old_fs = fs@;
    let k = match find_entry_index(fs, dir, name) {
        Some(k) => k,
        None => {
            proof {
                lemma_lookup_in_entries(spec_entries_of(fs@, dir), name@);
            }
            vstd::pervasive::unreached()
        },
    };
    match &mut fs.nodes[dir] {
        Node::Dir { entries, .. } => {
            entries.remove(k);
        },
        _ => vstd::pervasive::unreached(),
    }
    proof {
        lemma_remove_entry_at(spec_entries_of(old_fs, dir), name@, k as int);
        let target = old_fs.update(
            dir as int,
            SpecNode::Dir {
                entries: spec_remove_entry(spec_entries_of(old_fs, dir), name@),
                mode: old_fs[dir as int]->Dir_mode,
            },
        );
        assert(fs@ =~~= target);
        assert(spec_wf_node(old_fs, dir as int));
        assert forall|i: int| 0 <= i < fs@.len() implies spec_wf_node(fs@, i) by {
            if i == dir {
                let es = fs@[dir as int]->Dir_entries;
                let old_es = spec_entries_of(old_fs, dir);
                assert(es =~= old_es.remove(k as int));
                assert forall|j: int| 0 <= j < es.len() implies (#[trigger] es[j]).node
                    < fs@.len() && spec_valid_name(es[j].name) by {
                    if j < k {
                        assert(es[j] == old_es[j]);
                    } else {
                        assert(es[j] == old_es[j + 1]);
                    }
                }
                assert forall|k1: int, k2: int| 0 <= k1 < k2 < es.len() implies (
                #[trigger] es[k1]).name != (#[trigger] es[k2]).name by {
                    let o1: int = if k1 < k { k1 } else { k1 + 1 };
                    let o2: int = if k2 < k { k2 } else { k2 + 1 };
                    assert(es[k1] == old_es[o1]);
                    assert(es[k2] == old_es[o2]);
                }
            } else {
                assert(fs@[i] == old_fs[i]);
                assert(spec_wf_node(old_fs, i));
            }
        }
    }
}

/// Re-points the entry of a name at another node already in the store.
pub(crate) fn repoint_entry(fs: &mut FsState, dir: usize, name: String, node: usize)
    requires
        old(fs).wf(),
        spec_is_dir(old(fs)@, dir),
        spec_lookup(spec_entries_of(old(fs)@, dir), name@) is Some,
        node < old(fs)@.len(),
    ensures
        final(fs).wf(),
        final(fs)@ =~= old(fs)@.update(
            dir as int,
            SpecNode::Dir {
                entries: spec_replace_entry(spec_entries_of(old(fs)@, dir), name@, node),
                mode: old(fs)@[dir as int]->Dir_mode,
            },
        ),
{
    let ghost old_fs = fs@;
    let ghost name_view = name@;
    let k = match find_entry_index(fs, dir, &name) {
        Some(k) => k,
        None => {
            proof {
                lemma_lookup_in_entries(spec_entries_of(fs@, dir), name@);
            }
            vstd::pervasive::unreached()
        },
    };
    match &mut fs.nodes[dir] {
        Node::Dir { entries, .. } => {
            entries[k] = Entry { name, node };
        },
        _ => vstd::pervasive::unreached(),
    }
    proof {
        lemma_replace_entry_at(spec_entries_of(old_fs, dir), name_view, node, k as int);
        let target = old_fs.update(
            dir as int,
            SpecNode::Dir {
                entries: spec_replace_entry(spec_entries_of(old_fs, dir), name_view, node),
                mode: old_fs[dir as int]->Dir_mode,
            },
        );
        assert(fs@ =~~= target);
        assert(spec_wf_node(old_fs, dir as int));
        assert forall|i: int| 0 <= i < fs@.len() implies spec_wf_node(fs@, i) by {
            if i == dir {
                let es = fs@[dir as int]->Dir_entries;
                let old_es = spec_entries_of(old_fs, dir);
                assert(es =~= old_es.update(k as int, SpecEntry { name: name_view, node }));
                assert forall|j: int| 0 <= j < es.len() implies (#[trigger] es[j]).node
                    < fs@.len() && spec_valid_name(es[j].name) by {
                    if j != k {
                        assert(es[j] == old_es[j]);
                    } else {
                        assert(es[j].name == old_es[j].name);
                    }
                }
                assert forall|k1: int, k2: int| 0 <= k1 < k2 < es.len() implies (
                #[trigger] es[k1]).name != (#[trigger] es[k2]).name by {
                    assert(es[k1].name == old_es[k1].name);
                    assert(es[k2].name == old_es[k2].name);
                }
            } else {
                assert(fs@[i] == old_fs[i]);
                assert(spec_wf_node(old_fs, i));
            }
        }
    }
}

} // verus!
