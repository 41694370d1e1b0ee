//! Install references: what a user typed, resolved to a provider.
//!
//! Existing paths and Git shorthand retain their syntax. Download URLs are
//! kept verbatim, including signed queries and `@` characters.
use crate::meta::{opt_str_view, opt_view, Source, SourceView};
use crate::text::{
    ascii_lower, chars_of, concat, contains_seq, ends_with, find_first, find_last, has_char,
    has_prefix, has_suffix, has_substring, join, join_from, same_chars, without_suffixes, last_index, first_index, lower_ascii, slice_of,
    split, split_on, starts_with, string_of, trim_both, trim_end, trim_end_pattern, trim_start, trimmed,
    views,
};
use vstd::prelude::*;

verus! {

/// A reference to a skill to install.
#[derive(Debug, Clone, PartialEq, Eq)]
pub enum InstallRef {
    /// An existing directory, by its canonical path.
    Local(String),
    Git { url: String, branch: Option<String>, subpath: Option<String> },
    Archive { url: String, subpath: Option<String> },
    /// HTTP endpoints without an explicit Git or archive form are probed once
    /// during acquisition. Persisted sources always use the resolved provider.
    Url { url: String, branch: Option<String>, subpath: Option<String> },
}

/// An install reference with its text fields read as character sequences.
pub enum RefView {
    Local(Seq<char>),
    Git { url: Seq<char>, branch: Option<Seq<char>>, subpath: Option<Seq<char>> },
    Archive { url: Seq<char>, subpath: Option<Seq<char>> },
    Url { url: Seq<char>, branch: Option<Seq<char>>, subpath: Option<Seq<char>> },
}

impl View for InstallRef {
    type V = RefView;

    open spec fn view(&self) -> RefView {
        match self {
            InstallRef::Local(p) => RefView::Local(p@),
            InstallRef::Git { url, branch, subpath } => RefView::Git {
                url: url@,
                branch: opt_view(*branch),
                subpath: opt_view(*subpath),
            },
            InstallRef::Archive { url, subpath } => RefView::Archive {
                url: url@,
                subpath: opt_view(*subpath),
            },
            InstallRef::Url { url, branch, subpath } => RefView::Url {
                url: url@,
                branch: opt_view(*branch),
                subpath: opt_view(*subpath),
            },
        }
    }
}

impl RefView {
    pub open spec fn url(self) -> Option<Seq<char>> {
        match self {
            RefView::Local(_) => None,
            RefView::Git { url, .. } => Some(url),
            RefView::Archive { url, .. } => Some(url),
            RefView::Url { url, .. } => Some(url),
        }
    }

    pub open spec fn subpath(self) -> Option<Seq<char>> {
        match self {
            RefView::Local(_) => None,
            RefView::Git { subpath, .. } => subpath,
            RefView::Archive { subpath, .. } => subpath,
            RefView::Url { subpath, .. } => subpath,
        }
    }
}

/// Why a reference could not be parsed.
#[derive(Debug, Clone, Copy, PartialEq, Eq)]
pub enum RefError {
    /// The subpath leaves the tree or holds an empty, `.` or `..` component.
    InvalidSubpath,
    /// A github.com URL without an owner and a repository.
    GitHubUrl,
    /// A branch was given for an archive download.
    BranchForArchive,
    /// A URL scheme other than HTTP(S), SSH, `file` or Git's `user@host:`.
    UnsupportedScheme,
    /// Neither a path, a URL nor `owner/repo`.
    Unparsable,
    /// A local skill has no remote source to refresh from.
    LocalSource,
    /// A local directory needs no remote source provider to be acquired.
    LocalDirectory,
}

/// The message shown to the user for each refused reference.
pub open spec fn ref_message(e: RefError) -> &'static str {
    match e {
        RefError::InvalidSubpath => "invalid subpath: it must stay inside the source tree",
        RefError::GitHubUrl => "cannot parse GitHub URL",
        RefError::BranchForArchive => "--branch applies only to Git repositories; use the archive URL for the desired version",
        RefError::UnsupportedScheme => "unsupported source URL scheme",
        RefError::Unparsable => "cannot parse reference (not a path, URL, or owner/repo)",
        RefError::LocalSource => "local skills have no remote source",
        RefError::LocalDirectory => "local directories do not need a remote source provider",
    }
}

/// The message for a refusal of the reference `input`: a refusal of its
/// form names it.
pub open spec fn ref_description(e: RefError, input: Seq<char>) -> Seq<char> {
    match e {
        RefError::GitHubUrl => "cannot parse GitHub URL: "@ + input,
        RefError::Unparsable => "cannot parse reference: "@ + input
            + " (not a path, URL, or owner/repo)"@,
        _ => ref_message(e)@,
    }
}

impl RefError {
    /// The message for a refusal of the reference `input`, naming the input
    /// where the refusal is about its form.
    pub fn describe(&self, input: &str) -> (r: String)
        ensures
            r@ == ref_description(*self, input@),
    {
        let text = chars_of(input);
        match self {
            RefError::GitHubUrl => {
                let head = chars_of("cannot parse GitHub URL: ");
                string_of(concat(head.as_slice(), text.as_slice()).as_slice())
            },
            RefError::Unparsable => {
                let head = chars_of("cannot parse reference: ");
                let tail = chars_of(" (not a path, URL, or owner/repo)");
                let front = concat(head.as_slice(), text.as_slice());
                string_of(concat(front.as_slice(), tail.as_slice()).as_slice())
            },
            _ => string_of(chars_of(self.message()).as_slice()),
        }
    }

    /// A message for the user.
    pub fn message(&self) -> (r: &'static str)
        ensures
            r == ref_message(*self),
    {
        match self {
            RefError::InvalidSubpath => "invalid subpath: it must stay inside the source tree",
            RefError::GitHubUrl => "cannot parse GitHub URL",
            RefError::BranchForArchive => "--branch applies only to Git repositories; use the archive URL for the desired version",
            RefError::UnsupportedScheme => "unsupported source URL scheme",
            RefError::Unparsable => "cannot parse reference (not a path, URL, or owner/repo)",
            RefError::LocalSource => "local skills have no remote source",
            RefError::LocalDirectory => "local directories do not need a remote source provider",
        }
    }
}

/// The parse result with text read as character sequences.
pub open spec fn ref_result_view(r: Result<InstallRef, RefError>) -> Result<RefView, RefError> {
    match r {
        Ok(v) => Ok(v@),
        Err(e) => Err(e),
    }
}

/// `base@branch` splits at its last `@` when both sides are non-empty and the
/// branch holds no `/` or `:`.
pub open spec fn spec_git_branch(s: Seq<char>) -> (Seq<char>, Option<Seq<char>>) {
    let k = last_index(s, '@');
    if k >= 0 {
        let base = s.take(k);
        let br = s.skip(k + 1);
        if base.len() > 0 && br.len() > 0 && !br.contains('/') && !br.contains(':') {
            (base, Some(br))
        } else {
            (s, None)
        }
    } else {
        (s, None)
    }
}

/// A subpath is a non-empty list of `/`-separated names, none of them `.` or `..`.
pub open spec fn spec_valid_subpath(p: Seq<char>) -> bool {
    forall|i: int|
        0 <= i < split(p, '/').len() ==> {
            let piece = #[trigger] split(p, '/')[i];
            piece.len() > 0 && piece != seq!['.'] && piece != seq!['.', '.']
        }
}

/// The end of the part of `s` before its first `?` or `#`.
pub open spec fn query_start(s: Seq<char>) -> int {
    let q = first_index(s, '?');
    let h = first_index(s, '#');
    if q < 0 && h < 0 {
        s.len() as int
    } else if q < 0 {
        h
    } else if h < 0 || q < h {
        q
    } else {
        h
    }
}

/// `s` holds a query or fragment.
pub open spec fn has_query(s: Seq<char>) -> bool {
    s.contains('?') || s.contains('#')
}

/// The filename suffixes that mark an archive download.
pub open spec fn archive_suffixes() -> Seq<Seq<char>> {
    seq![
        ".zip"@, ".tar"@, ".tar.gz"@, ".tgz"@, ".tar.bz2"@, ".tbz2"@, ".tbz"@, ".tar.xz"@,
        ".txz"@, ".gz"@, ".bz2"@, ".xz"@,
    ]
}

/// `path` names an archive, letter case aside.
pub open spec fn is_archive_path(path: Seq<char>) -> bool {
    exists|i: int|
        0 <= i < archive_suffixes().len() && ends_with(
            ascii_lower(path),
            #[trigger] archive_suffixes()[i],
        )
}

/// The branch given explicitly, else one written inline.
pub open spec fn or_branch(given: Option<Seq<char>>, inline: Option<Seq<char>>) -> Option<
    Seq<char>,
> {
    if given is Some {
        given
    } else {
        inline
    }
}

/// A github.com web URL, once its scheme and host are removed.
pub open spec fn spec_parse_github(
    input: Seq<char>,
    rest: Seq<char>,
    branch: Option<Seq<char>>,
    subpath: Option<Seq<char>>,
) -> Option<Result<RefView, RefError>> {
    let parts = split(trim_end(rest, '/'), '/');
    if parts.len() < 2 || parts[0].len() == 0 || parts[1].len() == 0 {
        Some(Err(RefError::GitHubUrl))
    } else if !has_query(input) && (parts.len() == 2 || (parts.len() >= 4 && parts[2]
        == "tree"@)) {
        let (repo, inline) = spec_git_branch(parts[1]);
        let url = "https://github.com/"@ + parts[0] + "/"@ + trim_end_pattern(repo, ".git"@);
        let b = or_branch(branch, inline);
        let b = if parts.len() >= 4 && b is None {
            Some(parts[3])
        } else {
            b
        };
        let sp = if parts.len() > 4 && subpath is None {
            Some(join(parts.skip(4), "/"@))
        } else {
            subpath
        };
        Some(Ok(RefView::Git { url, branch: b, subpath: sp }))
    } else {
        None
    }
}

/// The github.com path of an HTTP(S) URL, if it is one.
pub open spec fn github_rest(input: Seq<char>) -> Option<Seq<char>> {
    if starts_with(input, "https://github.com/"@) {
        Some(input.skip("https://github.com/"@.len() as int))
    } else if starts_with(input, "http://github.com/"@) {
        Some(input.skip("http://github.com/"@.len() as int))
    } else {
        None
    }
}

/// An HTTP(S) reference.
pub open spec fn spec_parse_http(
    input: Seq<char>,
    branch: Option<Seq<char>>,
    subpath: Option<Seq<char>>,
) -> Result<RefView, RefError> {
    let github = match github_rest(input) {
        Some(rest) => spec_parse_github(input, rest, branch, subpath),
        None => None,
    };
    if github is Some {
        github->0
    } else if is_archive_path(input.take(query_start(input))) {
        if branch is Some {
            Err(RefError::BranchForArchive)
        } else {
            Ok(RefView::Archive { url: input, subpath })
        }
    } else {
        let (base, inline) = spec_git_branch(input);
        if !has_query(input) && ends_with(base, ".git"@) {
            Ok(RefView::Git { url: base, branch: or_branch(branch, inline), subpath })
        } else {
            Ok(RefView::Url { url: input, branch, subpath })
        }
    }
}

/// `owner/repo[/subpath]` on GitHub.
pub open spec fn spec_parse_shorthand(
    input: Seq<char>,
    branch: Option<Seq<char>>,
    subpath: Option<Seq<char>>,
) -> Result<RefView, RefError> {
    let parts = split(trim_both(input, '/'), '/');
    if parts.len() < 2 || exists|i: int| 0 <= i < parts.len() && (#[trigger] parts[i]).len() == 0 {
        Err(RefError::Unparsable)
    } else {
        let (repo, inline) = spec_git_branch(parts[1]);
        let sp = if subpath is None && parts.len() > 2 {
            Some(join(parts.skip(2), "/"@))
        } else {
            subpath
        };
        Ok(
            RefView::Git {
                url: "https://github.com/"@ + parts[0] + "/"@ + repo,
                branch: or_branch(branch, inline),
                subpath: sp,
            },
        )
    }
}

/// The subpath argument, trimmed of `/`, when anything is left.
pub open spec fn clean_subpath(subpath: Option<Seq<char>>) -> Option<Seq<char>> {
    match subpath {
        Some(s) => if trim_both(s, '/').len() > 0 {
            Some(trim_both(s, '/'))
        } else {
            None
        },
        None => None,
    }
}

/// What `parse_ref` returns for `input`, given the canonical path of an
/// existing directory of that name, if there is one.
pub open spec fn spec_parse_ref(
    input: Seq<char>,
    branch: Option<Seq<char>>,
    subpath: Option<Seq<char>>,
    existing: Option<Seq<char>>,
) -> Result<RefView, RefError> {
    let sp = clean_subpath(subpath);
    if existing is Some {
        Ok(RefView::Local(existing->0))
    } else if sp is Some && !spec_valid_subpath(sp->0) {
        Err(RefError::InvalidSubpath)
    } else if starts_with(input, "http://"@) || starts_with(input, "https://"@) {
        spec_parse_http(input, branch, sp)
    } else if starts_with(input, "git@"@) || starts_with(input, "ssh://"@) || starts_with(
        input,
        "file://"@,
    ) || ends_with(input, ".git"@) {
        let (url, inline) = if starts_with(input, "git@"@) {
            (input, None)
        } else {
            spec_git_branch(input)
        };
        Ok(RefView::Git { url, branch: or_branch(branch, inline), subpath: sp })
    } else if contains_seq(input, "://"@) {
        Err(RefError::UnsupportedScheme)
    } else {
        spec_parse_shorthand(input, branch, sp)
    }
}

/// A copy of an optional string.
pub fn copy_opt(o: &Option<String>) -> (r: Option<String>)
    ensures
        opt_view(r) == opt_view(*o),
{
    match o {
        Some(s) => Some(s.clone()),
        None => None,
    }
}

impl InstallRef {
    /// Everything but a local directory needs a remote provider.
    pub fn is_remote(&self) -> (r: bool)
        ensures
            r == !(self is Local),
    {
        !matches!(self, InstallRef::Local(_))
    }

    /// The URL of a remote reference.
    pub fn url(&self) -> (r: Option<&str>)
        ensures
            opt_str_view(r) == self@.url(),
    {
        match self {
            InstallRef::Local(_) => None,
            InstallRef::Git { url, .. } => Some(url.as_str()),
            InstallRef::Archive { url, .. } => Some(url.as_str()),
            InstallRef::Url { url, .. } => Some(url.as_str()),
        }
    }

    /// The directory inside the remote tree that holds the skill.
    pub fn subpath(&self) -> (r: Option<&str>)
        ensures
            opt_str_view(r) == self@.subpath(),
    {
        match self {
            InstallRef::Local(_) => None,
            InstallRef::Git { subpath, .. } => match subpath {
                Some(s) => Some(s.as_str()),
                None => None,
            },
            InstallRef::Archive { subpath, .. } => match subpath {
                Some(s) => Some(s.as_str()),
                None => None,
            },
            InstallRef::Url { subpath, .. } => match subpath {
                Some(s) => Some(s.as_str()),
                None => None,
            },
        }
    }

    /// The reference that fetches a recorded source again.
    pub fn from_source(source: &Source) -> (r: Result<InstallRef, RefError>)
        ensures
            ref_result_view(r) == spec_from_source(source@),
    {
        match source {
            Source::Git { url, branch, subpath, .. } => Ok(
                InstallRef::Git { url: url.clone(), branch: copy_opt(branch), subpath: copy_opt(subpath) },
            ),
            Source::Archive { url, subpath, .. } => Ok(
                InstallRef::Archive { url: url.clone(), subpath: copy_opt(subpath) },
            ),
            Source::Local { .. } => Err(RefError::LocalSource),
        }
    }
}

/// The reference that fetches a recorded source again: its revision is dropped.
pub open spec fn spec_from_source(s: SourceView) -> Result<RefView, RefError> {
    match s {
        SourceView::Git { url, branch, subpath, .. } => Ok(RefView::Git { url, branch, subpath }),
        SourceView::Archive { url, subpath, .. } => Ok(RefView::Archive { url, subpath }),
        SourceView::Local { .. } => Err(RefError::LocalSource),
    }
}

/// Splits `base@branch` at its last `@` (see [`spec_git_branch`]).
pub fn git_branch(s: &[char]) -> (r: (Vec<char>, Option<Vec<char>>))
    ensures
        r.0@ == spec_git_branch(s@).0,
        opt_vec_view(r.1) == spec_git_branch(s@).1,
{
    let n = s.len();
    match find_last(s, '@') {
        Some(k) => {
            let base = slice_of(s, 0, k);
            let br = slice_of(s, k + 1, n);
            assert(base@ == s@.take(k as int));
            assert(br@ == s@.skip(k + 1));
            if base.len() > 0 && br.len() > 0 && !has_char(br.as_slice(), '/') && !has_char(
                br.as_slice(),
                ':',
            ) {
                (base, Some(br))
            } else {
                (slice_whole(s), None)
            }
        },
        None => (slice_whole(s), None),
    }
}

/// A copy of `s`.
fn slice_whole(s: &[char]) -> (out: Vec<char>)
    ensures
        out@ == s@,
{
    assert(s@.subrange(0, s@.len() as int) == s@);
    slice_of(s, 0, s.len())
}

/// The text of an optional character vector.
pub open spec fn opt_vec_view(o: Option<Vec<char>>) -> Option<Seq<char>> {
    match o {
        Some(v) => Some(v@),
        None => None,
    }
}

/// The string of optional characters.
fn opt_string(o: &Option<Vec<char>>) -> (r: Option<String>)
    ensures
        opt_view(r) == opt_vec_view(*o),
{
    match o {
        Some(v) => Some(string_of(v.as_slice())),
        None => None,
    }
}

/// The characters of an optional string.
fn opt_chars(o: Option<&str>) -> (r: Option<Vec<char>>)
    ensures
        opt_vec_view(r) == opt_str_view(o),
{
    match o {
        Some(s) => Some(chars_of(s)),
        None => None,
    }
}

/// The given branch, else the inline one.
fn pick_branch(given: &Option<Vec<char>>, inline: Option<Vec<char>>) -> (r: Option<Vec<char>>)
    ensures
        opt_vec_view(r) == or_branch(opt_vec_view(*given), opt_vec_view(inline)),
{
    match given {
        Some(b) => Some(slice_whole(b.as_slice())),
        None => inline,
    }
}

/// The parse result with text read as character sequences, if any.
pub open spec fn opt_result_view(r: Option<Result<InstallRef, RefError>>) -> Option<
    Result<RefView, RefError>,
> {
    match r {
        Some(x) => Some(ref_result_view(x)),
        None => None,
    }
}

/// A github.com web URL (see [`spec_parse_github`]).
fn parse_github(
    input: &[char],
    rest: &[char],
    branch: &Option<Vec<char>>,
    subpath: &Option<Vec<char>>,
) -> (r: Option<Result<InstallRef, RefError>>)
    ensures
        opt_result_view(r) == spec_parse_github(
            input@,
            rest@,
            opt_vec_view(*branch),
            opt_vec_view(*subpath),
        ),
{
    let t = trimmed(rest, '/', false, true);
    let parts = split_on(t.as_slice(), '/');
    let ghost ps = views(parts@);
    assert(ps.len() == parts@.len());
    if parts.len() < 2 || parts[0].len() == 0 || parts[1].len() == 0 {
        proof {
            if parts@.len() >= 2 {
                assert(ps[0] == parts@[0]@);
                assert(ps[1] == parts@[1]@);
            }
        }
        return Some(Err(RefError::GitHubUrl));
    }
    assert(ps[0] == parts@[0]@);
    assert(ps[1] == parts@[1]@);
    let query = has_char(input, '?') || has_char(input, '#');
    let tree_form = if parts.len() >= 4 {
        let tree = chars_of("tree");
        assert(ps[2] == parts@[2]@);
        same_chars(parts[2].as_slice(), tree.as_slice())
    } else {
        false
    };
    if !query && (parts.len() == 2 || tree_form) {
        let (repo, inline) = git_branch(parts[1].as_slice());
        let dot_git = chars_of(".git");
        proof {
            reveal_strlit(".git");
        }
        let repo = without_suffixes(repo.as_slice(), dot_git.as_slice());
        let prefix = chars_of("https://github.com/");
        let slash = chars_of("/");
        let url = concat(prefix.as_slice(), parts[0].as_slice());
        let url = concat(url.as_slice(), slash.as_slice());
        let url = concat(url.as_slice(), repo.as_slice());
        let mut b = pick_branch(branch, inline);
        if parts.len() >= 4 && b.is_none() {
            assert(ps[3] == parts@[3]@);
            b = Some(slice_whole(parts[3].as_slice()));
        }
        let sp = if parts.len() > 4 && subpath.is_none() {
            Some(join_from(&parts, 4, slash.as_slice()))
        } else {
            match subpath {
                Some(s) => Some(slice_whole(s.as_slice())),
                None => None,
            }
        };
        Some(
            Ok(
                InstallRef::Git {
                    url: string_of(url.as_slice()),
                    branch: opt_string(&b),
                    subpath: opt_string(&sp),
                },
            ),
        )
    } else {
        None
    }
}

/// An HTTP(S) reference (see [`spec_parse_http`]).
fn parse_http(input: &[char], branch: &Option<Vec<char>>, subpath: &Option<Vec<char>>) -> (r:
    Result<InstallRef, RefError>)
    ensures
        ref_result_view(r) == spec_parse_http(
            input@,
            opt_vec_view(*branch),
            opt_vec_view(*subpath),
        ),
{
    let https = chars_of("https://github.com/");
    let http = chars_of("http://github.com/");
    let rest = if has_prefix(input, https.as_slice()) {
        Some(slice_of(input, https.len(), input.len()))
    } else if has_prefix(input, http.as_slice()) {
        Some(slice_of(input, http.len(), input.len()))
    } else {
        None
    };
    assert(opt_vec_view(rest) == github_rest(input@));
    let github = match &rest {
        Some(rest) => parse_github(input, rest.as_slice(), branch, subpath),
        None => None,
    };
    if let Some(result) = github {
        return result;
    }
    let end = find_query_start(input);
    let path = slice_of(input, 0, end);
    assert(path@ == input@.take(query_start(input@)));
    if archive_path(path.as_slice()) {
        if branch.is_some() {
            return Err(RefError::BranchForArchive);
        }
        return Ok(InstallRef::Archive { url: string_of(input), subpath: opt_string(subpath) });
    }
    let (base, inline) = git_branch(input);
    let dot_git = chars_of(".git");
    let query = has_char(input, '?') || has_char(input, '#');
    if !query && has_suffix(base.as_slice(), dot_git.as_slice()) {
        let b = pick_branch(branch, inline);
        return Ok(
            InstallRef::Git {
                url: string_of(base.as_slice()),
                branch: opt_string(&b),
                subpath: opt_string(subpath),
            },
        );
    }
    Ok(
        InstallRef::Url {
            url: string_of(input),
            branch: opt_string(branch),
            subpath: opt_string(subpath),
        },
    )
}

/// `owner/repo[/subpath]` on GitHub (see [`spec_parse_shorthand`]).
fn parse_shorthand(input: &[char], branch: &Option<Vec<char>>, subpath: &Option<Vec<char>>) -> (r:
    Result<InstallRef, RefError>)
    ensures
        ref_result_view(r) == spec_parse_shorthand(
            input@,
            opt_vec_view(*branch),
            opt_vec_view(*subpath),
        ),
{
    let t = trimmed(input, '/', true, true);
    let parts = split_on(t.as_slice(), '/');
    let ghost ps = views(parts@);
    if parts.len() < 2 {
        return Err(RefError::Unparsable);
    }
    let mut i: usize = 0;
    while i < parts.len()
        invariant
            ps == views(parts@),
            ps == split(trim_both(input@, '/'), '/'),
            i <= ps.len(),
            forall|j: int| 0 <= j < i ==> (#[trigger] ps[j]).len() > 0,
        decreases ps.len() - i,
    {
        assert(ps[i as int] == parts@[i as int]@);
        if parts[i].len() == 0 {
            assert(ps[i as int].len() == 0);
            return Err(RefError::Unparsable);
        }
        i = i + 1;
    }
    assert(ps[0] == parts@[0]@);
    assert(ps[1] == parts@[1]@);
    let (repo, inline) = git_branch(parts[1].as_slice());
    let slash = chars_of("/");
    let sp = if subpath.is_none() && parts.len() > 2 {
        Some(join_from(&parts, 2, slash.as_slice()))
    } else {
        match subpath {
            Some(s) => Some(slice_whole(s.as_slice())),
            None => None,
        }
    };
    let prefix = chars_of("https://github.com/");
    let url = concat(prefix.as_slice(), parts[0].as_slice());
    let url = concat(url.as_slice(), slash.as_slice());
    let url = concat(url.as_slice(), repo.as_slice());
    let b = pick_branch(branch, inline);
    Ok(
        InstallRef::Git {
            url: string_of(url.as_slice()),
            branch: opt_string(&b),
            subpath: opt_string(&sp),
        },
    )
}

/// Resolves what a user typed into an install reference.
///
/// `existing` is the canonical path of a directory named by `input`, when one
/// exists: such a path is always a local reference.
pub fn parse_ref(
    input: &str,
    branch: Option<&str>,
    subpath: Option<&str>,
    existing: Option<&str>,
) -> (r: Result<InstallRef, RefError>)
    ensures
        ref_result_view(r) == spec_parse_ref(
            input@,
            opt_str_view(branch),
            opt_str_view(subpath),
            opt_str_view(existing),
        ),
{
    if let Some(path) = existing {
        return Ok(InstallRef::Local(path.to_string()));
    }
    let input = chars_of(input);
    let branch = opt_chars(branch);
    let raw_subpath = opt_chars(subpath);
    let subpath = match &raw_subpath {
        Some(s) => {
            let t = trimmed(s.as_slice(), '/', true, true);
            if t.len() > 0 {
                Some(t)
            } else {
                None
            }
        },
        None => None,
    };
    assert(opt_vec_view(subpath) == clean_subpath(opt_vec_view(raw_subpath)));
    if let Some(p) = &subpath {
        if !validate_subpath(p.as_slice()) {
            return Err(RefError::InvalidSubpath);
        }
    }
    let http = chars_of("http://");
    let https = chars_of("https://");
    if has_prefix(input.as_slice(), http.as_slice()) || has_prefix(
        input.as_slice(),
        https.as_slice(),
    ) {
        return parse_http(input.as_slice(), &branch, &subpath);
    }
    let git_at = chars_of("git@");
    let ssh = chars_of("ssh://");
    let file = chars_of("file://");
    let dot_git = chars_of(".git");
    if has_prefix(input.as_slice(), git_at.as_slice()) || has_prefix(
        input.as_slice(),
        ssh.as_slice(),
    ) || has_prefix(input.as_slice(), file.as_slice()) || has_suffix(
        input.as_slice(),
        dot_git.as_slice(),
    ) {
        let (url, inline) = if has_prefix(input.as_slice(), git_at.as_slice()) {
            (slice_whole(input.as_slice()), None)
        } else {
            git_branch(input.as_slice())
        };
        let b = pick_branch(&branch, inline);
        return Ok(
            InstallRef::Git {
                url: string_of(url.as_slice()),
                branch: opt_string(&b),
                subpath: opt_string(&subpath),
            },
        );
    }
    let scheme = chars_of("://");
    if has_substring(input.as_slice(), scheme.as_slice()) {
        return Err(RefError::UnsupportedScheme);
    }
    parse_shorthand(input.as_slice(), &branch, &subpath)
}

/// Whether `p` is a valid subpath (see [`spec_valid_subpath`]).
pub fn validate_subpath(p: &[char]) -> (r: bool)
    ensures
        r == spec_valid_subpath(p@),
{
    let pieces = split_on(p, '/');
    let ghost ps = views(pieces@);
    let mut i: usize = 0;
    while i < pieces.len()
        invariant
            ps == views(pieces@),
            ps == split(p@, '/'),
            i <= ps.len(),
            forall|j: int|
                0 <= j < i ==> {
                    let piece = #[trigger] ps[j];
                    piece.len() > 0 && piece != seq!['.'] && piece != seq!['.', '.']
                },
        decreases ps.len() - i,
    {
        let piece = &pieces[i];
        assert(piece@ == ps[i as int]);
        let bad = piece.len() == 0 || (piece.len() == 1 && piece[0] == '.') || (piece.len() == 2
            && piece[0] == '.' && piece[1] == '.');
        if bad {
            if piece.len() == 1 {
                assert(piece@ =~= seq!['.']);
            }
            if piece.len() == 2 {
                assert(piece@ =~= seq!['.', '.']);
            }
            return false;
        }
        assert(piece@ != seq!['.']) by {
            if piece@.len() == 1 {
                assert(piece@[0] != seq!['.'][0]);
            }
        }
        assert(piece@ != seq!['.', '.']) by {
            if piece@.len() == 2 {
                assert(piece@[0] != '.' || piece@[1] != '.');
            }
        }
        i = i + 1;
    }
    true
}

/// Where the query or fragment of `s` begins, or its length.
pub fn find_query_start(s: &[char]) -> (r: usize)
    ensures
        r == query_start(s@),
        r <= s@.len(),
{
    let q = find_first(s, '?');
    let h = find_first(s, '#');
    match (q, h) {
        (None, None) => s.len(),
        (None, Some(h)) => h,
        (Some(q), None) => q,
        (Some(q), Some(h)) => if q < h {
            q
        } else {
            h
        },
    }
}

proof fn lemma_first_index_contains(s: Seq<char>, c: char)
    ensures
        (first_index(s, c) >= 0) == s.contains(c),
        first_index(s, c) < s.len(),
    decreases s.len(),
{
    if s.len() > 0 {
        lemma_first_index_contains(s.drop_last(), c);
        if s.drop_last().contains(c) {
            let j = choose|j: int| 0 <= j < s.drop_last().len() && s.drop_last()[j] == c;
            assert(s[j] == c);
        }
        if s.contains(c) && !s.drop_last().contains(c) {
            let j = choose|j: int| 0 <= j < s.len() && s[j] == c;
            if j < s.len() - 1 {
                assert(s.drop_last()[j] == c);
            }
        }
        if s.last() == c {
            assert(s[s.len() - 1] == c);
        }
    }
}

/// Whether `path` names an archive (see [`is_archive_path`]).
pub fn archive_path(path: &[char]) -> (r: bool)
    ensures
        r == is_archive_path(path@),
{
    let lower = lower_ascii(path);
    let suffixes = [
        ".zip", ".tar", ".tar.gz", ".tgz", ".tar.bz2", ".tbz2", ".tbz", ".tar.xz", ".txz", ".gz",
        ".bz2", ".xz",
    ];
    let mut i: usize = 0;
    while i < 12
        invariant
            i <= 12,
            lower@ == ascii_lower(path@),
            suffixes@.len() == 12,
            forall|j: int| 0 <= j < 12 ==> (#[trigger] suffixes@[j])@ == archive_suffixes()[j],
            forall|j: int| 0 <= j < i ==> !ends_with(lower@, #[trigger] archive_suffixes()[j]),
        decreases 12 - i,
    {
        let suffix = chars_of(suffixes[i]);
        if has_suffix(lower.as_slice(), suffix.as_slice()) {
            return true;
        }
        i = i + 1;
    }
    false
}

/// A name of a GitHub owner, repository or shorthand branch: no `/`, `:`
/// or `@`.
pub open spec fn plain_name(s: Seq<char>) -> bool {
    s.len() > 0 && forall|i: int| 0 <= i < s.len() ==> s[i] != '/' && s[i] != ':' && s[i] != '@'
}

proof fn lemma_split_free(s: Seq<char>, c: char)
    requires
        forall|i: int| 0 <= i < s.len() ==> s[i] != c,
    ensures
        split(s, c) == seq![s],
    decreases s.len(),
{
    if s.len() > 0 {
        lemma_split_free(s.drop_last(), c);
        assert(split(s.drop_last(), c).last().push(s.last()) =~= s);
        assert(split(s, c) =~= seq![s]);
    } else {
        assert(s =~= Seq::<char>::empty());
    }
}

proof fn lemma_split_append_free(x: Seq<char>, b: Seq<char>, c: char)
    requires
        forall|i: int| 0 <= i < b.len() ==> b[i] != c,
    ensures
        split(x + b, c) == split(x, c).update(split(x, c).len() - 1, split(x, c).last() + b),
        split(x, c).len() > 0,
    decreases b.len(),
{
    lemma_split_nonempty(x, c);
    if b.len() == 0 {
        assert(x + b =~= x);
        assert(split(x, c).last() + b =~= split(x, c).last());
        assert(split(x, c).update(split(x, c).len() - 1, split(x, c).last()) =~= split(x, c));
    } else {
        lemma_split_append_free(x, b.drop_last(), c);
        assert((x + b).drop_last() =~= x + b.drop_last());
        assert((x + b).last() == b.last());
        let p = split(x, c);
        assert((p.last() + b.drop_last()).push(b.last()) =~= p.last() + b);
        assert(split(x + b, c) =~= p.update(p.len() - 1, p.last() + b));
    }
}

proof fn lemma_split_nonempty(s: Seq<char>, c: char)
    ensures
        split(s, c).len() > 0,
    decreases s.len(),
{
    if s.len() > 0 {
        lemma_split_nonempty(s.drop_last(), c);
    }
}

/// The text `owner/repo@branch` splits at its one `/` into the owner and
/// `repo@branch`, which splits at its one `@`.
proof fn lemma_owner_repo_branch(owner: Seq<char>, repo: Seq<char>, branch: Seq<char>)
    requires
        plain_name(owner),
        plain_name(repo),
        plain_name(branch),
    ensures
        trim_both(owner + "/"@ + repo + "@"@ + branch, '/') == owner + "/"@ + repo + "@"@ + branch,
        trim_end(owner + "/"@ + repo + "@"@ + branch, '/') == owner + "/"@ + repo + "@"@ + branch,
        split(owner + "/"@ + repo + "@"@ + branch, '/') == seq![owner, repo + "@"@ + branch],
        spec_git_branch(repo + "@"@ + branch) == (repo, Some(branch)),
        forall|i: int|
            0 <= i < (owner + "/"@ + repo + "@"@ + branch).len() ==> {
                let c = #[trigger] (owner + "/"@ + repo + "@"@ + branch)[i];
                &&& c != ':'
                &&& (c == '@' ==> i == owner.len() + 1 + repo.len())
                &&& (c == '/' ==> i == owner.len())
                &&& (c == '?' || c == '#' ==> owner.contains(c) || repo.contains(c) || branch.contains(c))
            },
{
    reveal_strlit("/");
    reveal_strlit("@");
    let tail = repo + "@"@ + branch;
    let input = owner + "/"@ + tail;
    assert(input =~= owner + "/"@ + repo + "@"@ + branch);
    let a: int = (owner.len() + 1 + repo.len()) as int;
    assert forall|i: int| 0 <= i < input.len() implies {
        let c = #[trigger] input[i];
        &&& c != ':'
        &&& (c == '@' ==> i == a)
        &&& (c == '/' ==> i == owner.len())
        &&& (c == '?' || c == '#' ==> owner.contains(c) || repo.contains(c) || branch.contains(c))
    } by {
        if i < owner.len() {
            assert(input[i] == owner[i]);
        } else if i == owner.len() {
            assert(input[i] == '/');
        } else if i < a {
            assert(input[i] == repo[i - owner.len() - 1]);
        } else if i == a {
            assert(input[i] == '@');
        } else {
            assert(input[i] == branch[i - a - 1]);
        }
    }
    // The pieces are the owner and `repo@branch`.
    assert(trim_start(input, '/') == input);
    assert(input.last() == branch.last());
    assert(trim_end(input, '/') == input);
    assert(trim_both(input, '/') == input);
    lemma_split_free(owner, '/');
    assert(split(owner + "/"@, '/') =~= seq![owner, Seq::<char>::empty()]) by {
        assert((owner + "/"@).drop_last() =~= owner);
    }
    assert forall|i: int| 0 <= i < tail.len() implies tail[i] != '/' by {
        assert(tail[i] == input[i + owner.len() + 1]);
    }
    lemma_split_append_free(owner + "/"@, tail, '/');
    assert(Seq::<char>::empty() + tail =~= tail);
    assert(owner + "/"@ + tail =~= input);
    let parts = split(input, '/');
    assert(parts =~= seq![owner, tail]);
    // `repo@branch` splits at its only `@`.
    assert forall|j: int| repo.len() < j < tail.len() implies tail[j] != '@' by {
        assert(tail[j] == input[j + owner.len() + 1]);
    }
    assert(tail[repo.len() as int] == '@');
    crate::text::lemma_last_index_unique(tail, '@', repo.len() as int);
    assert(tail.take(repo.len() as int) =~= repo);
    assert(tail.skip(repo.len() + 1int) =~= branch);
    assert(!branch.contains('/'));
    assert(!branch.contains(':'));
    assert(spec_git_branch(tail) == (repo, Some(branch)));
}

/// The shorthand `owner/repo@branch` names the GitHub repository
/// `owner/repo` on that branch: the branch written inline never becomes
/// part of the repository's URL, and a branch given explicitly takes its
/// place. (A branch ending in `.git` makes the text a Git URL instead.)
pub proof fn law_shorthand_inline_branch(
    owner: Seq<char>,
    repo: Seq<char>,
    branch: Seq<char>,
    given: Option<Seq<char>>,
)
    requires
        plain_name(owner),
        plain_name(repo),
        plain_name(branch),
        !ends_with(branch, ".git"@),
    ensures
        spec_parse_ref(owner + "/"@ + repo + "@"@ + branch, given, None, None) == Ok::<
            RefView,
            RefError,
        >(
            RefView::Git {
                url: "https://github.com/"@ + owner + "/"@ + repo,
                branch: match given {
                    Some(g) => Some(g),
                    None => Some(branch),
                },
                subpath: None,
            },
        ),
{
    reveal_strlit("/");
    reveal_strlit("@");
    reveal_strlit("http://");
    reveal_strlit("https://");
    reveal_strlit("git@");
    reveal_strlit("ssh://");
    reveal_strlit("file://");
    reveal_strlit(".git");
    reveal_strlit("://");
    let tail = repo + "@"@ + branch;
    let input = owner + "/"@ + tail;
    assert(input =~= owner + "/"@ + repo + "@"@ + branch);
    let a: int = (owner.len() + 1 + repo.len()) as int;
    lemma_owner_repo_branch(owner, repo, branch);
    assert forall|i: int| 0 <= i < input.len() implies input[i] != ':' && (input[i] == '@' ==> i
        == a) && (input[i] == '/' ==> i == owner.len()) by {
        assert(input[i] == (owner + "/"@ + repo + "@"@ + branch)[i]);
    }
    // Not an HTTP, SSH, file or scp-like Git URL, and no other scheme.
    assert(!starts_with(input, "http://"@)) by {
        if starts_with(input, "http://"@) {
            assert(input[4] == "http://"@[4]);
        }
    }
    assert(!starts_with(input, "https://"@)) by {
        if starts_with(input, "https://"@) {
            assert(input[5] == "https://"@[5]);
        }
    }
    assert(!starts_with(input, "ssh://"@)) by {
        if starts_with(input, "ssh://"@) {
            assert(input[3] == "ssh://"@[3]);
        }
    }
    assert(!starts_with(input, "file://"@)) by {
        if starts_with(input, "file://"@) {
            assert(input[4] == "file://"@[4]);
        }
    }
    assert(!starts_with(input, "git@"@)) by {
        if starts_with(input, "git@"@) {
            assert(input[3] == "git@"@[3]);
            assert(input[1] == "git@"@[1]);
            assert(input[0] == "git@"@[0]);
            assert(input[2] == "git@"@[2]);
        }
    }
    assert(!contains_seq(input, "://"@)) by {
        if contains_seq(input, "://"@) {
            let k = choose|k: int| 0 <= k <= input.len() - "://"@.len() && #[trigger] input.subrange(
                k,
                k + "://"@.len(),
            ) == "://"@;
            assert(input.subrange(k, k + 3)[0] == input[k]);
        }
    }
    assert(!ends_with(input, ".git"@)) by {
        if ends_with(input, ".git"@) {
            let n = input.len() as int;
            if branch.len() >= 4 {
                assert(branch.skip(branch.len() - 4) =~= input.skip(n - 4));
            } else {
                assert(input.skip(n - 4)[a - (n - 4)] == input[a]);
            }
        }
    }
}

/// Free of the characters that begin a query or a fragment.
pub open spec fn no_query_chars(s: Seq<char>) -> bool {
    !s.contains('?') && !s.contains('#')
}

/// The GitHub web URL of `owner/repo@branch` names the same reference as
/// the shorthand: the repository `owner/repo` on that branch, the inline
/// branch never part of the URL, and a branch given explicitly taking its
/// place. (A repository ending in `.git` loses that suffix in the URL.)
pub proof fn law_github_url_inline_branch(
    owner: Seq<char>,
    repo: Seq<char>,
    branch: Seq<char>,
    given: Option<Seq<char>>,
)
    requires
        plain_name(owner),
        plain_name(repo),
        plain_name(branch),
        no_query_chars(owner),
        no_query_chars(repo),
        no_query_chars(branch),
        !ends_with(repo, ".git"@),
    ensures
        spec_parse_ref("https://github.com/"@ + owner + "/"@ + repo + "@"@ + branch, given, None, None)
            == Ok::<RefView, RefError>(
            RefView::Git {
                url: "https://github.com/"@ + owner + "/"@ + repo,
                branch: match given {
                    Some(g) => Some(g),
                    None => Some(branch),
                },
                subpath: None,
            },
        ),
        !ends_with(branch, ".git"@) ==> spec_parse_ref(
            "https://github.com/"@ + owner + "/"@ + repo + "@"@ + branch,
            given,
            None,
            None,
        ) == spec_parse_ref(owner + "/"@ + repo + "@"@ + branch, given, None, None),
{
    reveal_strlit("https://github.com/");
    reveal_strlit("https://");
    reveal_strlit(".git");
    lemma_owner_repo_branch(owner, repo, branch);
    let x = owner + "/"@ + repo + "@"@ + branch;
    let host = "https://github.com/"@;
    let input = host + x;
    assert(input =~= "https://github.com/"@ + owner + "/"@ + repo + "@"@ + branch);
    assert(input.take(host.len() as int) =~= host);
    assert(input.take("https://"@.len() as int) =~= "https://"@);
    assert(input.skip(host.len() as int) =~= x);
    assert(github_rest(input) == Some(x));
    assert(!has_query(input)) by {
        assert forall|i: int| 0 <= i < input.len() implies input[i] != '?' && input[i] != '#' by {
            if i >= host.len() {
                assert(input[i] == x[i - host.len()]);
                let c = x[i - host.len()];
                if c == '?' || c == '#' {
                    assert(owner.contains(c) || repo.contains(c) || branch.contains(c));
                }
            }
        }
    }
    assert(trim_end_pattern(repo, ".git"@) == repo);
    if !ends_with(branch, ".git"@) {
        law_shorthand_inline_branch(owner, repo, branch, given);
    }
}

} // verus!
