//! The path component model: a caller-supplied path string is parsed once
//! into an ordered sequence of typed components plus an absolute marker and
//! a trailing-separator flag, and is never re-parsed mid-resolution.

use vstd::prelude::*;

use crate::error::{FsError, FsErrorKind};

verus! {

/// One step of a path walk.
#[derive(Debug)]
pub enum Component {
    /// `.`: stay in the current directory.
    CurDir,
    /// `..`: move to the parent already visited during this walk.
    ParentDir,
    /// A plain name to look up in the current directory.
    Normal(String),
}

/// The mathematical form of a component.
#[verifier::ext_equal]
pub enum SpecComponent {
    CurDir,
    ParentDir,
    Normal(Seq<char>),
}

impl View for Component {
    type V = SpecComponent;

    open spec fn view(&self) -> SpecComponent {
        match self {
            Component::CurDir => SpecComponent::CurDir,
            Component::ParentDir => SpecComponent::ParentDir,
            Component::Normal(name) => SpecComponent::Normal(name@),
        }
    }
}

impl DeepView for Component {
    type V = SpecComponent;

    open spec fn deep_view(&self) -> SpecComponent {
        self.view()
    }
}

/// A parsed path: its components in order, whether the string began with a
/// separator, and whether it ended with one.
#[derive(Debug)]
pub struct ParsedPath {
    /// The string began with `/`. Such a path never resolves: it is rejected
    /// as an escape from the sandboxed root.
    pub absolute: bool,
    /// The string ended with `/`. A trailing separator makes the true final
    /// component a `.` for resolving operations.
    pub trailing: bool,
    /// The typed components, in order of appearance.
    pub components: Vec<Component>,
}

/// The mathematical form of a parsed path.
#[verifier::ext_equal]
pub struct SpecParsedPath {
    pub absolute: bool,
    pub trailing: bool,
    pub components: Seq<SpecComponent>,
}

impl View for ParsedPath {
    type V = SpecParsedPath;

    open spec fn view(&self) -> SpecParsedPath {
        SpecParsedPath {
            absolute: self.absolute,
            trailing: self.trailing,
            components: self.components.deep_view(),
        }
    }
}

/// The path separator.
pub open spec fn spec_is_sep(c: char) -> bool {
    c == '/'
}

/// Whether the string holds an embedded NUL, which no path may.
pub open spec fn spec_has_nul(s: Seq<char>) -> bool {
    exists|i: int| 0 <= i < s.len() && s[i] == '\0'
}

/// Whether the string is an absolute path.
pub open spec fn spec_absolute(s: Seq<char>) -> bool {
    s.len() > 0 && spec_is_sep(s[0])
}

/// Whether the string ends with a separator.
pub open spec fn spec_trailing(s: Seq<char>) -> bool {
    s.len() > 0 && spec_is_sep(s[s.len() - 1])
}

/// The length of the leading run of non-separator characters.
pub open spec fn seg_len(s: Seq<char>) -> int
    decreases s.len(),
{
    if s.len() == 0 {
        0
    } else if spec_is_sep(s[0]) {
        0
    } else {
        1 + seg_len(s.drop_first())
    }
}

pub proof fn lemma_seg_len_bounds(s: Seq<char>)
    ensures
        0 <= seg_len(s) <= s.len(),
        s.len() > 0 && !spec_is_sep(s[0]) ==> 1 <= seg_len(s),
        forall|i: int| 0 <= i < seg_len(s) ==> !spec_is_sep(s[i]),
        seg_len(s) < s.len() ==> spec_is_sep(s[seg_len(s)]),
    decreases s.len(),
{
    if s.len() > 0 && !spec_is_sep(s[0]) {
        lemma_seg_len_bounds(s.drop_first());
        assert forall|i: int| 0 <= i < seg_len(s) implies !spec_is_sep(s[i]) by {
            if i > 0 {
                assert(s.drop_first()[i - 1] == s[i]);
            }
        }
        if seg_len(s) < s.len() {
            assert(s.drop_first()[seg_len(s) - 1] == s[seg_len(s)]);
        }
    }
}

/// The maximal non-empty runs of non-separator characters, in order.
pub open spec fn spec_segments(s: Seq<char>) -> Seq<Seq<char>>
    decreases s.len(),
    via spec_segments_decreases
{
    if s.len() == 0 {
        Seq::empty()
    } else if spec_is_sep(s[0]) {
        spec_segments(s.drop_first())
    } else {
        seq![s.take(seg_len(s))] + spec_segments(s.skip(seg_len(s)))
    }
}

#[via_fn]
proof fn spec_segments_decreases(s: Seq<char>) {
    if s.len() > 0 && !spec_is_sep(s[0]) {
        lemma_seg_len_bounds(s);
    }
}

/// How one segment is read: `.`, `..`, or a plain name.
pub open spec fn spec_classify(seg: Seq<char>) -> SpecComponent {
    if seg == seq!['.'] {
        SpecComponent::CurDir
    } else if seg == seq!['.', '.'] {
        SpecComponent::ParentDir
    } else {
        SpecComponent::Normal(seg)
    }
}

/// The component sequence a path string denotes.
pub open spec fn spec_components(s: Seq<char>) -> Seq<SpecComponent> {
    spec_segments(s).map_values(|seg: Seq<char>| spec_classify(seg))
}

/// What parsing a path string yields: `InvalidInput` exactly when the string
/// holds an embedded NUL, and otherwise the component sequence with the
/// absolute and trailing markers. An empty string yields no components,
/// which resolves like a lone `.`.
pub open spec fn spec_parse(s: Seq<char>) -> Result<SpecParsedPath, FsErrorKind> {
    if spec_has_nul(s) {
        Err(FsErrorKind::InvalidInput)
    } else {
        Ok(
            SpecParsedPath {
                absolute: spec_absolute(s),
                trailing: spec_trailing(s),
                components: spec_components(s),
            },
        )
    }
}

/// A name a directory entry may carry: non-empty, not `.` or `..`, and free
/// of separators and NULs.
pub open spec fn spec_valid_name(s: Seq<char>) -> bool {
    &&& s.len() > 0
    &&& s != seq!['.']
    &&& s != seq!['.', '.']
    &&& forall|i: int| 0 <= i < s.len() ==> !spec_is_sep(s[i]) && s[i] != '\0'
}

/// Every segment is a non-empty run without separators, whose characters
/// all occur in the parsed string.
pub proof fn lemma_segments_wf(s: Seq<char>)
    ensures
        forall|k: int|
            0 <= k < spec_segments(s).len() ==> {
                let seg = #[trigger] spec_segments(s)[k];
                seg.len() > 0 && forall|i: int|
                    0 <= i < seg.len() ==> !spec_is_sep(#[trigger] seg[i]) && (!spec_has_nul(s)
                        ==> seg[i] != '\0')
            },
    decreases s.len(),
{
    if s.len() == 0 {
    } else if spec_is_sep(s[0]) {
        lemma_segments_wf(s.drop_first());
        assert(!spec_has_nul(s) ==> !spec_has_nul(s.drop_first())) by {
            if !spec_has_nul(s) && spec_has_nul(s.drop_first()) {
                let i = choose|i: int|
                    0 <= i < s.drop_first().len() && s.drop_first()[i] == '\0';
                assert(s[i + 1] == '\0');
            }
        }
        assert forall|k: int|
            0 <= k < spec_segments(s).len() implies {
            let seg = #[trigger] spec_segments(s)[k];
            seg.len() > 0 && forall|i: int|
                0 <= i < seg.len() ==> !spec_is_sep(#[trigger] seg[i]) && (!spec_has_nul(s)
                    ==> seg[i] != '\0')
        } by {
            assert(spec_segments(s)[k] == spec_segments(s.drop_first())[k]);
        }
    } else {
        lemma_seg_len_bounds(s);
        let n = seg_len(s);
        lemma_segments_wf(s.skip(n));
        assert(!spec_has_nul(s) ==> !spec_has_nul(s.skip(n))) by {
            if !spec_has_nul(s) && spec_has_nul(s.skip(n)) {
                let i = choose|i: int| 0 <= i < s.skip(n).len() && s.skip(n)[i] == '\0';
                assert(s[i + n] == '\0');
            }
        }
        let head = s.take(n);
        assert(head.len() > 0);
        assert forall|i: int| 0 <= i < head.len() implies !spec_is_sep(#[trigger] head[i]) && (
        !spec_has_nul(s) ==> head[i] != '\0') by {
            assert(head[i] == s[i]);
            if !spec_has_nul(s) && s[i] == '\0' {
                assert(spec_has_nul(s));
            }
        }
        assert forall|k: int|
            0 <= k < spec_segments(s).len() implies {
            let seg = #[trigger] spec_segments(s)[k];
            seg.len() > 0 && forall|i: int|
                0 <= i < seg.len() ==> !spec_is_sep(#[trigger] seg[i]) && (!spec_has_nul(s)
                    ==> seg[i] != '\0')
        } by {
            if k == 0 {
                assert(spec_segments(s)[k] == head);
            } else {
                assert(spec_segments(s)[k] == spec_segments(s.skip(n))[k - 1]);
            }
        }
    }
}

/// A `Normal` component of a parsed NUL-free string carries a valid name.
pub proof fn lemma_components_valid(s: Seq<char>)
    requires
        !spec_has_nul(s),
    ensures
        forall|k: int|
            0 <= k < spec_components(s).len() && #[trigger] spec_components(
                s,
            )[k] is Normal ==> spec_valid_name(spec_components(s)[k]->Normal_0),
{
    lemma_segments_wf(s);
    assert forall|k: int|
        0 <= k < spec_components(s).len() && #[trigger] spec_components(s)[k] is Normal
        implies spec_valid_name(spec_components(s)[k]->Normal_0) by {
        let seg = spec_segments(s)[k];
        assert(spec_components(s)[k] == spec_classify(seg));
    }
}

impl Component {
    /// Reads one segment as a component.
    fn classify(seg: &str) -> (r: Component)
        ensures
            r@ == spec_classify(seg@),
    {
        let n = seg.unicode_len();
        if n == 1 && seg.get_char(0) == '.' {
            proof {
                assert(seg@ =~= seq!['.']);
            }
            Component::CurDir
        } else if n == 2 && seg.get_char(0) == '.' && seg.get_char(1) == '.' {
            proof {
                assert(seg@ =~= seq!['.', '.']);
            }
            Component::ParentDir
        } else {
            proof {
                assert(seg@ != seq!['.'] && seg@ != seq!['.', '.']);
            }
            Component::Normal(seg.to_owned())
        }
    }
}

/// Parses a path string into its component sequence, rejecting embedded
/// NULs.
pub fn parse_path(s: &str) -> (r: Result<ParsedPath, FsError>)
    ensures
        match spec_parse(s@) {
            Ok(p) => r matches Ok(q) && q@ == p,
            Err(k) => r matches Err(e) && e.kind == k,
        },
{
    let n = s.unicode_len();
    // First reject embedded NULs, so that the main scan deals with a clean
    // string.
    let mut i: usize = 0;
    while i < n
        invariant
            i <= n,
            n == s@.len(),
            forall|j: int| 0 <= j < i ==> s@[j] != '\0',
        decreases n - i,
    {
        if s.get_char(i) == '\0' {
            return Err(FsError::new(FsErrorKind::InvalidInput));
        }
        i += 1;
    }
    assert(!spec_has_nul(s@));

    let absolute = n > 0 && s.get_char(0) == '/';
    let trailing = n > 0 && s.get_char(n - 1) == '/';

    let mut components: Vec<Component> = Vec::new();
    proof {
        assert(s@.skip(0) =~= s@);
        assert(components.deep_view() =~= Seq::<SpecComponent>::empty());
        assert(spec_components(s@) =~= components.deep_view() + spec_segments(
            s@.skip(0),
        ).map_values(|seg: Seq<char>| spec_classify(seg)));
    }
    let mut i: usize = 0;
    while i < n
        invariant
            i <= n,
            n == s@.len(),
            !spec_has_nul(s@),
            spec_components(s@) =~= components.deep_view() + spec_segments(s@.skip(i as int)).map_values(
                |seg: Seq<char>| spec_classify(seg),
            ),
        decreases n - i,
    {
        let ghost rest = s@.skip(i as int);
        if s.get_char(i) == '/' {
            proof {
                assert(rest.drop_first() =~= s@.skip(i + 1));
            }
            i += 1;
        } else {
            // Scan to the end of the current segment.
            let mut j: usize = i;
            while j < n && s.get_char(j) != '/'
                invariant
                    i <= j <= n,
                    n == s@.len(),
                    seg_len(s@.skip(i as int)) == (j - i) + seg_len(s@.skip(j as int)),
                    forall|k: int| i <= k < j ==> !spec_is_sep(s@[k]),
                decreases n - j,
            {
                proof {
                    assert(s@.skip(j as int).drop_first() =~= s@.skip(j + 1));
                }
                j += 1;
            }
            proof {
                if j < n {
                    assert(s@.skip(j as int)[0] == s@[j as int]);
                }
                assert(seg_len(s@.skip(j as int)) == 0);
                assert(seg_len(rest) == j - i);
            }
            let seg = s.substring_char(i, j);
            let c = Component::classify(seg);
            proof {
                assert(seg@ =~= rest.take(j - i));
                assert(rest.skip(j - i) =~= s@.skip(j as int));
                assert(spec_segments(rest) =~= seq![rest.take(j - i)] + spec_segments(
                    s@.skip(j as int),
                ));
                let f = |seg: Seq<char>| spec_classify(seg);
                assert(spec_segments(rest).map_values(f) =~= seq![spec_classify(seg@)]
                    + spec_segments(s@.skip(j as int)).map_values(f));
            }
            let ghost dv = components.deep_view();
            components.push(c);
            proof {
                assert(components.deep_view() =~= dv.push(c@));
                assert(dv.push(c@) =~= dv + seq![c@]);
            }
            i = j;
        }
    }
    proof {
        assert(spec_segments(s@.skip(n as int)) =~= Seq::<Seq<char>>::empty());
        assert(spec_components(s@) =~= components.deep_view());
    }
    Ok(ParsedPath { absolute, trailing, components })
}

} // verus!
