//! Installing skills from remote sources or local paths.
//!
//! The caller stages trees and reads the filesystem; the library decides what
//! a fetched tree means, which name a skill gets and which source is recorded.
use crate::meta::{opt_str_view, opt_view, Source, SourceView};
use crate::reference::{copy_opt, InstallRef, RefView};
use crate::source::{spec_acquired_source, Acquired};
use crate::download::{decimal, decimal_string};
use crate::text::{chars_of, concat, has_prefix, slice_of, split, split_on, starts_with, string_of, views};
use vstd::prelude::*;

verus! {

/// A fetched skill: where its content is, and what source it records.
pub struct Fetched {
    /// Directory holding the skill content (inside `workdir`).
    pub skill_dir: String,
    /// Temporary work directory to delete afterwards.
    pub workdir: String,
    pub source: Source,
}

/// Raised when a reference resolves to a directory holding several skills
/// rather than one. Carries the subpaths a caller can offer to choose from.
#[derive(Debug, Clone, PartialEq, Eq)]
pub struct NotOneSkill {
    pub choices: Vec<String>,
}

/// Why a fetched tree holds no single skill.
#[derive(Debug, Clone, PartialEq, Eq)]
pub enum FetchError {
    /// A local directory without a `SKILL.md`.
    MissingSkillFile,
    /// A remote tree without any `SKILL.md` at or below the subpath.
    NoSkill,
    /// A remote tree with several skills below the subpath.
    NotOneSkill(NotOneSkill),
}

/// The text that names a reference: its directory, or its URL.
pub open spec fn reference_text(r: RefView) -> Seq<char> {
    match r {
        RefView::Local(path) => path,
        RefView::Git { url, .. } => url,
        RefView::Archive { url, .. } => url,
        RefView::Url { url, .. } => url,
    }
}

/// The message for a fetch of `r` that found no single skill.
pub open spec fn fetch_description(e: FetchErrorView, r: RefView) -> Seq<char> {
    match e {
        FetchErrorView::MissingSkillFile => reference_text(r) + " has no SKILL.md"@,
        FetchErrorView::NoSkill => "no SKILL.md at "@ + (match r.subpath() {
            Some(s) => s,
            None => "the source root"@,
        }) + " in "@ + reference_text(r),
        FetchErrorView::NotOneSkill(choices) => "holds "@ + decimal(choices.len())
            + " skills; pick one"@,
    }
}

/// The text that names `r` (see [`reference_text`]).
fn text_of(r: &InstallRef) -> (t: &str)
    ensures
        t@ == reference_text(r@),
{
    match r {
        InstallRef::Local(path) => path.as_str(),
        InstallRef::Git { url, .. } => url.as_str(),
        InstallRef::Archive { url, .. } => url.as_str(),
        InstallRef::Url { url, .. } => url.as_str(),
    }
}

impl FetchError {
    /// The message for this refusal of a fetch of `reference`.
    pub fn describe(&self, reference: &InstallRef) -> (m: String)
        ensures
            m@ == fetch_description(fetch_error_view(*self), reference@),
    {
        let name = chars_of(text_of(reference));
        match self {
            FetchError::MissingSkillFile => {
                let tail = chars_of(" has no SKILL.md");
                string_of(concat(name.as_slice(), tail.as_slice()).as_slice())
            },
            FetchError::NoSkill => {
                let head = chars_of("no SKILL.md at ");
                let place = match reference.subpath() {
                    Some(s) => chars_of(s),
                    None => chars_of("the source root"),
                };
                let within = chars_of(" in ");
                let a = concat(head.as_slice(), place.as_slice());
                let b = concat(a.as_slice(), within.as_slice());
                string_of(concat(b.as_slice(), name.as_slice()).as_slice())
            },
            FetchError::NotOneSkill(n) => {
                let head = chars_of("holds ");
                let count = decimal_string(n.choices.len() as u64);
                let digits = chars_of(count.as_str());
                let tail = chars_of(" skills; pick one");
                let a = concat(head.as_slice(), digits.as_slice());
                string_of(concat(a.as_slice(), tail.as_slice()).as_slice())
            },
        }
    }
}

/// The character sequences of a list of strings.
pub open spec fn string_views(v: Seq<String>) -> Seq<Seq<char>> {
    v.map_values(|s: String| s@)
}

/// A discovered directory, relative to the subpath `base`, as a subpath of the tree.
pub open spec fn under_base(base: Seq<char>, c: Seq<char>) -> Seq<char> {
    if base.len() == 0 {
        c
    } else {
        base + "/"@ + c
    }
}

/// What fetching `r` yields when the expected directory holds a `SKILL.md`
/// (`found`), or else holds skills in the `discovered` directories below it.
pub open spec fn spec_fetch(r: RefView, found: bool, discovered: Seq<Seq<char>>) -> Result<
    (),
    FetchErrorView,
> {
    if found {
        Ok(())
    } else if r is Local {
        Err(FetchErrorView::MissingSkillFile)
    } else if discovered.len() == 0 {
        Err(FetchErrorView::NoSkill)
    } else {
        let base = match r.subpath() {
            Some(s) => s,
            None => Seq::<char>::empty(),
        };
        Err(
            FetchErrorView::NotOneSkill(
                discovered.map_values(|c: Seq<char>| under_base(base, c)),
            ),
        )
    }
}

/// A fetch error with its choices read as character sequences.
pub enum FetchErrorView {
    MissingSkillFile,
    NoSkill,
    NotOneSkill(Seq<Seq<char>>),
}

/// A fetch refusal with text read as character sequences.
pub open spec fn fetch_error_view(e: FetchError) -> FetchErrorView {
    match e {
        FetchError::MissingSkillFile => FetchErrorView::MissingSkillFile,
        FetchError::NoSkill => FetchErrorView::NoSkill,
        FetchError::NotOneSkill(n) => FetchErrorView::NotOneSkill(string_views(n.choices@)),
    }
}

/// The fetch outcome with text read as character sequences.
pub open spec fn fetch_view(r: Result<(), FetchError>) -> Result<(), FetchErrorView> {
    match r {
        Ok(()) => Ok(()),
        Err(FetchError::MissingSkillFile) => Err(FetchErrorView::MissingSkillFile),
        Err(FetchError::NoSkill) => Err(FetchErrorView::NoSkill),
        Err(FetchError::NotOneSkill(n)) => Err(
            FetchErrorView::NotOneSkill(string_views(n.choices@)),
        ),
    }
}

/// Decides whether a fetched tree holds exactly the skill that `reference`
/// names. `found` tells whether the expected directory holds a `SKILL.md`;
/// `discovered` lists the directories below it that do, relative to it.
pub fn fetch(reference: &InstallRef, found: bool, discovered: &[String]) -> (r: Result<
    (),
    FetchError,
>)
    ensures
        fetch_view(r) == spec_fetch(reference@, found, string_views(discovered@)),
{
    if found {
        return Ok(());
    }
    if let InstallRef::Local(_) = reference {
        return Err(FetchError::MissingSkillFile);
    }
    if discovered.len() == 0 {
        return Err(FetchError::NoSkill);
    }
    let base = match reference.subpath() {
        Some(s) => chars_of(s),
        None => Vec::new(),
    };
    let ghost b = base@;
    let slash = chars_of("/");
    let ghost expected = string_views(discovered@).map_values(|c: Seq<char>| under_base(b, c));
    let mut choices: Vec<String> = Vec::new();
    let mut i: usize = 0;
    while i < discovered.len()
        invariant
            i <= discovered@.len(),
            base@ == b,
            slash@ == "/"@,
            expected == string_views(discovered@).map_values(|c: Seq<char>| under_base(b, c)),
            string_views(choices@) == expected.take(i as int),
        decreases discovered@.len() - i,
    {
        let c = chars_of(discovered[i].as_str());
        let full = if base.len() == 0 {
            c
        } else {
            let with_slash = concat(base.as_slice(), slash.as_slice());
            concat(with_slash.as_slice(), c.as_slice())
        };
        let ghost before = choices@;
        choices.push(string_of(full.as_slice()));
        assert(string_views(choices@) =~= string_views(before).push(full@));
        assert(expected.take(i + 1) =~= expected.take(i as int).push(expected[i as int]));
        i = i + 1;
    }
    assert(expected.take(discovered@.len() as int) =~= expected);
    Err(FetchError::NotOneSkill(NotOneSkill { choices }))
}

/// The last name of a list of path components, skipping empty and `.` ones.
pub open spec fn last_name(pieces: Seq<Seq<char>>) -> Option<Seq<char>>
    decreases pieces.len(),
{
    if pieces.len() == 0 {
        None
    } else if pieces.last().len() == 0 || pieces.last() == "."@ {
        last_name(pieces.drop_last())
    } else {
        Some(pieces.last())
    }
}

/// The final name of a path, or nothing when it ends in `..` or has no name.
pub open spec fn file_name(path: Seq<char>) -> Seq<char> {
    match last_name(split(path, '/')) {
        Some(n) => if n == ".."@ {
            Seq::<char>::empty()
        } else {
            n
        },
        None => Seq::<char>::empty(),
    }
}

/// The name a reference installs under unless one is given: a local
/// directory's own name, else the name declared by the fetched skill.
pub open spec fn spec_default_name(r: RefView, declared: Option<Seq<char>>) -> Seq<char> {
    match r {
        RefView::Local(p) => file_name(p),
        _ => match declared {
            Some(n) => n,
            None => Seq::<char>::empty(),
        },
    }
}

/// The final name of `path` (see [`file_name`]).
pub fn path_file_name(path: &str) -> (r: String)
    ensures
        r@ == file_name(path@),
{
    let p = chars_of(path);
    let pieces = split_on(p.as_slice(), '/');
    let ghost ps = views(pieces@);
    let mut i: usize = pieces.len();
    assert(ps.take(ps.len() as int) == ps);
    while i > 0
        invariant
            i <= ps.len(),
            ps == views(pieces@),
            ps == split(p@, '/'),
            p@ == path@,
            last_name(ps) == last_name(ps.take(i as int)),
        decreases i,
    {
        let piece = &pieces[i - 1];
        let ghost t = ps.take(i as int);
        assert(t.last() == piece@);
        assert(t.drop_last() == ps.take(i - 1));
        let dot = piece.len() == 1 && piece[0] == '.';
        if piece.len() == 0 || dot {
            proof {
                if dot {
                    assert(piece@ =~= "."@) by {
                        reveal_strlit(".");
                    }
                }
            }
            i = i - 1;
        } else {
            assert(piece@ != "."@) by {
                reveal_strlit(".");
                if piece@.len() == 1 {
                    assert(piece@[0] != "."@[0]);
                }
            }
            assert(last_name(t) == Some(piece@));
            let parent = piece.len() == 2 && piece[0] == '.' && piece[1] == '.';
            proof {
                reveal_strlit("..");
                if parent {
                    assert(piece@ =~= ".."@);
                } else if piece@.len() == 2 {
                    assert(piece@[0] != ".."@[0] || piece@[1] != ".."@[1]);
                }
            }
            if parent {
                return String::new();
            }
            return string_of(piece.as_slice());
        }
    }
    assert(ps.take(0).len() == 0);
    String::new()
}

/// The name a reference installs under unless one is given (see
/// [`spec_default_name`]). `declared` is the name in the fetched `SKILL.md`,
/// when it could be read.
pub fn default_name(r: &InstallRef, declared: Option<&str>) -> (out: String)
    ensures
        out@ == spec_default_name(r@, opt_str_view(declared)),
{
    match r {
        InstallRef::Local(p) => path_file_name(p.as_str()),
        _ => match declared {
            Some(n) => n.to_string(),
            None => String::new(),
        },
    }
}

/// Why a source cannot be recorded.
#[derive(Debug, Clone, Copy, PartialEq, Eq)]
pub enum SetSourceError {
    /// Only repository upstream sources are recorded.
    NotRemote,
    /// An HTTP endpoint must be acquired once to learn its provider.
    Unresolved,
}

/// The message shown for each refusal to record a source.
pub open spec fn set_source_message(e: SetSourceError) -> &'static str {
    match e {
        SetSourceError::NotRemote => "Only repository upstream sources are recorded",
        SetSourceError::Unresolved => "an HTTP endpoint must be acquired once to learn its provider",
    }
}

impl SetSourceError {
    /// A message for the user.
    pub fn message(&self) -> (r: &'static str)
        ensures
            r == set_source_message(*self),
    {
        match self {
            SetSourceError::NotRemote => "Only repository upstream sources are recorded",
            SetSourceError::Unresolved => "an HTTP endpoint must be acquired once to learn its provider",
        }
    }
}

/// The source recorded for `r`: Git and archive references as they are, an
/// HTTP endpoint as the provider it resolved to. No revision is recorded.
pub open spec fn spec_set_source(r: RefView, resolved: Option<SourceView>) -> Result<
    SourceView,
    SetSourceError,
> {
    match r {
        RefView::Local(_) => Err(SetSourceError::NotRemote),
        RefView::Git { url, branch, subpath } => Ok(
            SourceView::Git { url, branch, subpath, revision: None },
        ),
        RefView::Archive { url, subpath } => Ok(
            SourceView::Archive { url, subpath, revision: None },
        ),
        RefView::Url { .. } => match resolved {
            Some(SourceView::Git { url, branch, subpath, .. }) => Ok(
                SourceView::Git { url, branch, subpath, revision: None },
            ),
            Some(SourceView::Archive { url, subpath, .. }) => Ok(
                SourceView::Archive { url, subpath, revision: None },
            ),
            _ => Err(SetSourceError::Unresolved),
        },
    }
}

/// The source recorded in place of a skill's current one (see
/// [`spec_set_source`]). `resolved` is the tree acquired for an HTTP endpoint
/// reference; other references ignore it.
pub fn set_source(r: &InstallRef, resolved: Option<&Acquired>) -> (out: Result<
    Source,
    SetSourceError,
>)
    ensures
        match out {
            Ok(s) => spec_set_source(
                r@,
                match resolved {
                    Some(a) => Some(
                        spec_acquired_source(
                            a.url@,
                            a.kind,
                            opt_view(a.branch),
                            a.revision@,
                            r@.subpath(),
                        ),
                    ),
                    None => None,
                },
            ) == Ok::<SourceView, SetSourceError>(s@),
            Err(e) => spec_set_source(
                r@,
                match resolved {
                    Some(a) => Some(
                        spec_acquired_source(
                            a.url@,
                            a.kind,
                            opt_view(a.branch),
                            a.revision@,
                            r@.subpath(),
                        ),
                    ),
                    None => None,
                },
            ) == Err::<SourceView, SetSourceError>(e),
        },
{
    match r {
        InstallRef::Local(_) => Err(SetSourceError::NotRemote),
        InstallRef::Git { url, branch, subpath } => Ok(
            Source::Git {
                url: url.clone(),
                branch: copy_opt(branch),
                subpath: copy_opt(subpath),
                revision: None,
            },
        ),
        InstallRef::Archive { url, subpath } => Ok(
            Source::Archive { url: url.clone(), subpath: copy_opt(subpath), revision: None },
        ),
        InstallRef::Url { .. } => match resolved {
            Some(acquired) => {
                let source = acquired.source(r.subpath());
                match source {
                    Source::Git { url, branch, subpath, .. } => Ok(
                        Source::Git { url, branch, subpath, revision: None },
                    ),
                    Source::Archive { url, subpath, .. } => Ok(
                        Source::Archive { url, subpath, revision: None },
                    ),
                    Source::Local { .. } => Err(SetSourceError::Unresolved),
                }
            },
            None => Err(SetSourceError::Unresolved),
        },
    }
}

/// A directory found below a searched one that discovery offers: not the
/// searched directory itself, and no component hidden (starting with `.`).
pub open spec fn offered(relative: Seq<char>) -> bool {
    relative.len() > 0 && forall|i: int|
        0 <= i < split(relative, '/').len() ==> !(split(relative, '/')[i].len() > 0 && #[trigger] split(
            relative,
            '/',
        )[i][0] == '.')
}

/// Whether discovery offers the directory at `relative` (see [`offered`]).
pub fn is_offered(relative: &str) -> (r: bool)
    ensures
        r == offered(relative@),
{
    let text = chars_of(relative);
    if text.len() == 0 {
        return false;
    }
    let pieces = split_on(text.as_slice(), '/');
    let ghost ps = views(pieces@);
    let mut i: usize = 0;
    while i < pieces.len()
        invariant
            i <= pieces@.len(),
            ps == views(pieces@),
            ps == split(relative@, '/'),
            forall|j: int| 0 <= j < i ==> !(ps[j].len() > 0 && #[trigger] ps[j][0] == '.'),
        decreases pieces@.len() - i,
    {
        let piece = &pieces[i];
        assert(piece@ == ps[i as int]);
        if piece.len() > 0 && piece[0] == '.' {
            return false;
        }
        i = i + 1;
    }
    true
}

/// Strings ordered by their characters, as `str`'s order on UTF-8 bytes
/// orders them.
pub open spec fn text_lt(a: Seq<char>, b: Seq<char>) -> bool
    decreases a.len(),
{
    if a.len() == 0 {
        b.len() > 0
    } else if b.len() == 0 {
        false
    } else if a[0] != b[0] {
        (a[0] as int) < (b[0] as int)
    } else {
        text_lt(a.drop_first(), b.drop_first())
    }
}

/// The views of `v` are in ascending order.
pub open spec fn sorted_texts(v: Seq<Seq<char>>) -> bool {
    forall|i: int, j: int| 0 <= i < j < v.len() ==> !text_lt(#[trigger] v[j], #[trigger] v[i])
}

/// No text orders before itself.
proof fn lemma_text_lt_irreflexive(a: Seq<char>)
    ensures
        !text_lt(a, a),
    decreases a.len(),
{
    if a.len() > 0 {
        lemma_text_lt_irreflexive(a.drop_first());
    }
}

/// The order of texts is transitive.
proof fn lemma_text_lt_transitive(a: Seq<char>, b: Seq<char>, c: Seq<char>)
    requires
        text_lt(a, b),
        text_lt(b, c),
    ensures
        text_lt(a, c),
    decreases a.len(),
{
    if a.len() > 0 && a[0] == b[0] && b[0] == c[0] {
        lemma_text_lt_transitive(a.drop_first(), b.drop_first(), c.drop_first());
    }
}

/// Whether `a` orders before `b` (see [`text_lt`]).
fn text_less(a: &[char], b: &[char]) -> (r: bool)
    ensures
        r == text_lt(a@, b@),
{
    let mut i: usize = 0;
    assert(a@.skip(0) =~= a@ && b@.skip(0) =~= b@);
    while i < a.len() && i < b.len() && a[i] == b[i]
        invariant
            i <= a@.len(),
            i <= b@.len(),
            text_lt(a@, b@) == text_lt(a@.skip(i as int), b@.skip(i as int)),
        decreases a@.len() - i,
    {
        assert(a@.skip(i as int).drop_first() =~= a@.skip(i + 1));
        assert(b@.skip(i as int).drop_first() =~= b@.skip(i + 1));
        i = i + 1;
    }
    proof {
        let (sa, sb) = (a@.skip(i as int), b@.skip(i as int));
        assert(sa.len() == a@.len() - i && sb.len() == b@.len() - i);
        if i < a.len() && i < b.len() {
            assert(sa[0] == a@[i as int] && sb[0] == b@[i as int]);
            assert(a@[i as int] != b@[i as int]);
            assert(text_lt(sa, sb) == ((sa[0] as int) < (sb[0] as int)));
        } else if i == a.len() {
            assert(text_lt(sa, sb) == (sb.len() > 0));
        } else {
            assert(!text_lt(sa, sb));
        }
    }
    if i == a.len() {
        i < b.len()
    } else if i == b.len() {
        false
    } else {
        a[i] < b[i]
    }
}

/// Sorts strings in ascending order (the order of `str`, by bytes, which
/// for UTF-8 is the order of their characters), keeping every string.
pub(crate) fn sort_strings(v: &mut Vec<String>)
    ensures
        string_views(final(v)@).to_multiset() == string_views(old(v)@).to_multiset(),
        sorted_texts(string_views(final(v)@)),
{
    let mut out: Vec<String> = Vec::new();
    let mut i: usize = 0;
    assert(string_views(v@.take(0)) =~= string_views(out@));
    while i < v.len()
        invariant
            i <= v@.len(),
            v@ == old(v)@,
            string_views(out@).to_multiset() == string_views(v@.take(i as int)).to_multiset(),
            sorted_texts(string_views(out@)),
        decreases v@.len() - i,
    {
        let x = v[i].clone();
        let xc = chars_of(x.as_str());
        let ghost s = string_views(out@);
        let mut p: usize = 0;
        while p < out.len() && !text_less(xc.as_slice(), chars_of(out[p].as_str()).as_slice())
            invariant
                p <= out@.len(),
                s == string_views(out@),
                xc@ == x@,
                forall|j: int| 0 <= j < p ==> !text_lt(x@, #[trigger] s[j]),
            decreases out@.len() - p,
        {
            p = p + 1;
        }
        proof {
            if p < out@.len() {
                assert(text_lt(x@, s[p as int]));
            }
        }
        out.insert(p, x);
        proof {
            let t = string_views(out@);
            assert(t =~= s.insert(p as int, x@));
            assert(string_views(v@.take(i + 1)) =~= string_views(v@.take(i as int)).push(x@));
            vstd::seq_lib::to_multiset_insert(s, p as int, x@);
            vstd::seq_lib::to_multiset_build(string_views(v@.take(i as int)), x@);
            assert forall|a: int, b: int| 0 <= a < b < t.len() implies !text_lt(
                #[trigger] t[b],
                #[trigger] t[a],
            ) by {
                if b < p {
                } else if b == p {
                } else if a < p {
                } else if a == p {
                    assert(t[b] == s[b - 1] && t[a] == x@);
                    if text_lt(t[b], x@) {
                        lemma_text_lt_transitive(t[b], x@, s[p as int]);
                        if b - 1 > p {
                            assert(!text_lt(s[b - 1], s[p as int]));
                        } else {
                            lemma_text_lt_irreflexive(s[p as int]);
                        }
                    }
                } else {
                    assert(t[a] == s[a - 1] && t[b] == s[b - 1]);
                }
            }
        }
        i = i + 1;
    }
    assert(v@.take(v@.len() as int) =~= v@);
    *v = out;
}

/// Subpaths under a searched directory that contain a `SKILL.md`, given
/// the relative directories holding one: the offered ones, sorted.
pub fn discover(found: &[String]) -> (r: Vec<String>)
    ensures
        string_views(r@).to_multiset() == string_views(found@).filter(|p: Seq<char>| offered(p)).to_multiset(),
        sorted_texts(string_views(r@)),
{
    let mut out: Vec<String> = Vec::new();
    let mut i: usize = 0;
    while i < found.len()
        invariant
            i <= found@.len(),
            string_views(out@) == string_views(found@.take(i as int)).filter(|p: Seq<char>| offered(p)),
        decreases found@.len() - i,
    {
        proof {
            reveal(Seq::filter);
            assert(found@.take(i + 1).drop_last() =~= found@.take(i as int));
            assert(string_views(found@.take(i + 1)).drop_last() =~= string_views(found@.take(i as int)));
        }
        let ghost before = out@;
        if is_offered(found[i].as_str()) {
            out.push(found[i].clone());
            assert(string_views(out@) =~= string_views(before).push(found@[i as int]@));
        }
        i = i + 1;
    }
    assert(found@.take(found@.len() as int) =~= found@);
    sort_strings(&mut out);
    out
}

/// Why a directory cannot be adopted.
#[derive(Debug, Clone, Copy, PartialEq, Eq, Structural)]
pub enum AdoptError {
    /// A skill already in the root keeps its directory name; renaming is a
    /// separate operation.
    RenameInRoot,
    /// The skill in the root already has metadata.
    AlreadyManaged,
    /// Another skill holds the name in the root.
    Exists,
}

/// How a directory is adopted.
#[derive(Debug, Clone, Copy, PartialEq, Eq, Structural)]
pub enum AdoptPlan {
    /// The directory is already in the root: only record a local source.
    RecordInPlace,
    /// Move the directory into the root through a staging copy, leaving a
    /// link behind when it lived in an agent's skills directory, and record
    /// where it came from.
    Move { link_back: bool },
}

/// Decides how to adopt a directory: `in_root` when its parent is the root,
/// `keeps_name` when the key is its directory name, `managed` when the key
/// already has metadata, `taken` when something holds the key in the root,
/// `in_agent_dir` when its parent is an agent's skills directory.
pub fn adopt_plan(in_root: bool, keeps_name: bool, managed: bool, taken: bool, in_agent_dir: bool) -> (r:
    Result<AdoptPlan, AdoptError>)
    ensures
        r == (if in_root {
            if !keeps_name {
                Err(AdoptError::RenameInRoot)
            } else if managed {
                Err(AdoptError::AlreadyManaged)
            } else {
                Ok(AdoptPlan::RecordInPlace)
            }
        } else if taken {
            Err(AdoptError::Exists)
        } else {
            Ok(AdoptPlan::Move { link_back: in_agent_dir })
        }),
{
    if in_root {
        if !keeps_name {
            Err(AdoptError::RenameInRoot)
        } else if managed {
            Err(AdoptError::AlreadyManaged)
        } else {
            Ok(AdoptPlan::RecordInPlace)
        }
    } else if taken {
        Err(AdoptError::Exists)
    } else {
        Ok(AdoptPlan::Move { link_back: in_agent_dir })
    }
}

/// How a fetched skill is placed and recorded.
#[derive(Debug, Clone, Copy, PartialEq, Eq, Structural)]
pub struct InstallPlan {
    /// Copy into the root's staging area first, then rename: downloads may
    /// be on another filesystem, and only a complete copy is published.
    pub via_staging: bool,
    /// Record a baseline hash of the installed tree, for remote sources.
    pub record_baseline: bool,
}

/// Decides how to place a fetched skill: refused when something holds the
/// key in the root (`taken`); staged when the reference is remote; with a
/// baseline when the recorded source is remote.
pub fn install_plan(reference: &InstallRef, source: &Source, taken: bool) -> (r: Option<InstallPlan>)
    ensures
        r == (if taken {
            None
        } else {
            Some(
                InstallPlan {
                    via_staging: !(reference@ is Local),
                    record_baseline: !(source@ is Local),
                },
            )
        }),
{
    if taken {
        None
    } else {
        Some(InstallPlan { via_staging: reference.is_remote(), record_baseline: source.is_remote() })
    }
}

/// The key a skill installs under: the given name, else the default name.
pub fn install_key(name: Option<&str>, default: String) -> (r: String)
    ensures
        r@ == (match name {
            Some(n) => n@,
            None => default@,
        }),
{
    match name {
        Some(n) => n.to_owned(),
        None => default,
    }
}

/// `path` written from the home directory `home`: `~` for the home
/// directory itself, `~/…` for a path inside it, the path itself otherwise
/// (or when no home directory is known).
pub open spec fn tilde_path(path: Seq<char>, home: Seq<char>) -> Seq<char> {
    if home.len() == 0 {
        path
    } else if path == home {
        "~"@
    } else if starts_with(path, home + "/"@) {
        "~"@ + path.skip(home.len() as int)
    } else {
        path
    }
}

/// `path` written from the home directory (see [`tilde_path`]).
pub fn contract_tilde(path: &str, home: &str) -> (r: String)
    ensures
        r@ == tilde_path(path@, home@),
{
    let p = chars_of(path);
    let h = chars_of(home);
    if h.len() == 0 {
        return path.to_owned();
    }
    if crate::text::same_chars(p.as_slice(), h.as_slice()) {
        return "~".to_owned();
    }
    let inside = concat(h.as_slice(), chars_of("/").as_slice());
    if has_prefix(p.as_slice(), inside.as_slice()) {
        let rest = slice_of(p.as_slice(), h.len(), p.len());
        assert(rest@ =~= path@.skip(home@.len() as int));
        return string_of(concat(chars_of("~").as_slice(), rest.as_slice()).as_slice());
    }
    path.to_owned()
}

/// The source recorded for a skill installed from the local directory
/// `path`: the directory, written from the home directory `home`.
pub fn local_source(path: &str, home: &str) -> (r: Source)
    ensures
        r@ == (SourceView::Local { path: Some(tilde_path(path@, home@)) }),
{
    Source::Local { path: Some(contract_tilde(path, home)) }
}

} // verus!
