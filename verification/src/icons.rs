//! Optional Nerd Font source decorations; text mode needs no patched font.
use crate::meta::{Source, SourceView};
use crate::text::{
    ascii_lower, chars_of, concat, find_first, find_last, first_index, last_index, lower_ascii,
    same_chars, slice_of, starts_with, string_of,
};
use vstd::prelude::*;

verus! {

/// How sources and groups are decorated: Nerd Font glyphs or plain words.
#[derive(Debug, Clone, Copy, PartialEq, Eq, Structural)]
pub enum Icons {
    Nerd,
    Text,
}

/// The ends drawn around a tag label.
#[derive(Debug, Clone, Copy, PartialEq, Eq, Structural)]
pub enum PillCaps {
    Round,
    Block,
    /// No ends at all.
    Bare,
}

/// `s` up to its first `c` (all of `s` without one).
pub open spec fn before_first(s: Seq<char>, c: char) -> Seq<char> {
    if first_index(s, c) >= 0 {
        s.take(first_index(s, c))
    } else {
        s
    }
}

/// `s` after its last `c` (all of `s` without one).
pub open spec fn after_last(s: Seq<char>, c: char) -> Seq<char> {
    if last_index(s, c) >= 0 {
        s.skip(last_index(s, c) + 1)
    } else {
        s
    }
}

/// `://` starts at `k`.
pub open spec fn scheme_sep_at(s: Seq<char>, k: int) -> bool {
    0 <= k && k + 3 <= s.len() && s[k] == ':' && s[k + 1] == '/' && s[k + 2] == '/'
}

/// The first `://` of `s` starts at `k`.
pub open spec fn first_scheme_sep(s: Seq<char>, k: int) -> bool {
    scheme_sep_at(s, k) && forall|j: int| 0 <= j < k ==> !scheme_sep_at(s, j)
}

/// The host a Git URL names: after `scheme://`, the authority without user
/// and port; in the `user@host:path` form, the part before the colon
/// without the user. A plain path names no host.
pub open spec fn url_host(url: Seq<char>) -> Option<Seq<char>> {
    if exists|k: int| first_scheme_sep(url, k) {
        let k = choose|k: int| first_scheme_sep(url, k);
        Some(before_first(after_last(before_first(url.skip(k + 3), '/'), '@'), ':'))
    } else if first_index(url, ':') >= 0 {
        Some(after_last(url.take(first_index(url, ':')), '@'))
    } else {
        None
    }
}

/// `github.com`.
pub open spec fn github_host() -> Seq<char> {
    seq!['g', 'i', 't', 'h', 'u', 'b', '.', 'c', 'o', 'm']
}

/// The URL's host is `github.com`, in any ASCII case.
pub open spec fn is_github(url: Seq<char>) -> bool {
    match url_host(url) {
        Some(h) => ascii_lower(h) == github_host(),
        None => false,
    }
}

fn before_first_of(s: &[char], c: char) -> (out: Vec<char>)
    ensures
        out@ == before_first(s@, c),
{
    match find_first(s, c) {
        Some(k) => slice_of(s, 0, k),
        None => slice_of(s, 0, s.len()),
    }
}

fn after_last_of(s: &[char], c: char) -> (out: Vec<char>)
    ensures
        out@ == after_last(s@, c),
{
    match find_last(s, c) {
        Some(k) => {
            assert(k < s.len());
            slice_of(s, k + 1, s.len())
        },
        None => slice_of(s, 0, s.len()),
    }
}

fn find_scheme_sep(s: &[char]) -> (r: Option<usize>)
    ensures
        match r {
            Some(k) => first_scheme_sep(s@, k as int),
            None => !(exists|k: int| first_scheme_sep(s@, k)),
        },
{
    let mut i: usize = 0;
    while i <= s.len() && s.len() - i >= 3
        invariant
            i <= s@.len(),
            forall|j: int| 0 <= j < i ==> !scheme_sep_at(s@, j),
        decreases s@.len() - i,
    {
        if s[i] == ':' && s[i + 1] == '/' && s[i + 2] == '/' {
            return Some(i);
        }
        i = i + 1;
    }
    assert forall|k: int| !first_scheme_sep(s@, k) by {
        if first_scheme_sep(s@, k) {
            assert(k < i);
        }
    }
    None
}

/// The host of `url` (see [`url_host`]).
pub fn host_of(url: &str) -> (r: Option<Vec<char>>)
    ensures
        match r {
            Some(h) => url_host(url@) == Some(h@),
            None => url_host(url@) is None,
        },
{
    let text = chars_of(url);
    match find_scheme_sep(text.as_slice()) {
        Some(k) => {
            proof {
                let c = choose|c: int| first_scheme_sep(url@, c);
                assert(first_scheme_sep(url@, c));
                if c < k {
                    assert(!scheme_sep_at(url@, c));
                } else if c > k {
                    assert(!scheme_sep_at(url@, k as int));
                }
            }
            assert(k + 3 <= text.len());
            let rest = slice_of(text.as_slice(), k + 3, text.len());
            assert(rest@ == url@.skip(k + 3));
            let authority = before_first_of(rest.as_slice(), '/');
            let user_less = after_last_of(authority.as_slice(), '@');
            Some(before_first_of(user_less.as_slice(), ':'))
        },
        None => match find_first(text.as_slice(), ':') {
            Some(c) => {
                let head = slice_of(text.as_slice(), 0, c);
                Some(after_last_of(head.as_slice(), '@'))
            },
            None => None,
        },
    }
}

/// Whether `url` is hosted on `github.com` (see [`is_github`]).
pub fn github(url: &str) -> (r: bool)
    ensures
        r == is_github(url@),
{
    match host_of(url) {
        Some(h) => {
            let lower = lower_ascii(h.as_slice());
            let expected = chars_of("github.com");
            proof {
                reveal_strlit("github.com");
            }
            assert(expected@ == github_host());
            same_chars(lower.as_slice(), expected.as_slice())
        },
        None => false,
    }
}

/// The Git glyph or word for a URL, distinguishing GitHub.
pub open spec fn git_icon(mode: Icons, github: bool) -> &'static str {
    match (mode, github) {
        (Icons::Nerd, true) => "󰊤",
        (Icons::Nerd, false) => "󰊢",
        (Icons::Text, true) => "github",
        (Icons::Text, false) => "git",
    }
}

/// The decoration of a Git source at `url`.
pub fn git(mode: Icons, url: &str) -> (r: &'static str)
    ensures
        r == git_icon(mode, is_github(url@)),
{
    match (mode, github(url)) {
        (Icons::Nerd, true) => "󰊤",
        (Icons::Nerd, false) => "󰊢",
        (Icons::Text, true) => "github",
        (Icons::Text, false) => "git",
    }
}

/// The decoration of a local source.
pub open spec fn local_icon(mode: Icons) -> &'static str {
    match mode {
        Icons::Nerd => "󰉋 local",
        Icons::Text => "local",
    }
}

/// The decoration of a local source.
pub fn local(mode: Icons) -> (r: &'static str)
    ensures
        r == local_icon(mode),
{
    match mode {
        Icons::Nerd => "󰉋 local",
        Icons::Text => "local",
    }
}

/// The decoration of an archive source, wherever it is hosted.
pub open spec fn archive_icon(mode: Icons) -> &'static str {
    match mode {
        Icons::Nerd => "󰏗",
        Icons::Text => "archive",
    }
}

/// The decoration of a source: Git by its host, archives by their kind.
pub open spec fn spec_source_icon(mode: Icons, source: SourceView) -> &'static str {
    match source {
        SourceView::Git { url, .. } => git_icon(mode, is_github(url)),
        SourceView::Archive { .. } => archive_icon(mode),
        SourceView::Local { .. } => local_icon(mode),
    }
}

/// The decoration of `source` (see [`spec_source_icon`]).
pub fn source_icon(mode: Icons, source: &Source) -> (r: &'static str)
    ensures
        r == spec_source_icon(mode, source@),
{
    match source {
        Source::Git { url, .. } => git(mode, url.as_str()),
        Source::Archive { .. } => match mode {
            Icons::Nerd => "󰏗",
            Icons::Text => "archive",
        },
        Source::Local { .. } => local(mode),
    }
}

/// The decoration of a branch name.
pub open spec fn branch_icon(mode: Icons) -> &'static str {
    match mode {
        Icons::Nerd => "󰘬",
        Icons::Text => "branch",
    }
}

/// The decoration of a branch name.
pub fn branch(mode: Icons) -> (r: &'static str)
    ensures
        r == branch_icon(mode),
{
    match mode {
        Icons::Nerd => "󰘬",
        Icons::Text => "branch",
    }
}

/// The decoration of an installed package.
pub fn package(mode: Icons) -> (r: &'static str)
    ensures
        r == (match mode {
            Icons::Nerd => "󰏗",
            Icons::Text => "installed",
        }),
{
    match mode {
        Icons::Nerd => "󰏗",
        Icons::Text => "installed",
    }
}

/// The ends drawn around a preset label.
pub open spec fn spec_preset_caps(mode: Icons) -> (&'static str, &'static str) {
    match mode {
        Icons::Nerd => ("", ""),
        Icons::Text => ("/", "/"),
    }
}

/// The ends drawn around a preset label.
pub fn preset_caps(mode: Icons) -> (r: (&'static str, &'static str))
    ensures
        r == spec_preset_caps(mode),
{
    match mode {
        Icons::Nerd => ("", ""),
        Icons::Text => ("/", "/"),
    }
}

/// The decoration of an agent's scope: global, inside a repository, or a
/// plain directory; nothing in text mode.
pub fn scope(mode: Icons, global: bool, repository: bool) -> (r: &'static str)
    ensures
        r == (match (mode, global, repository) {
            (Icons::Text, _, _) => "",
            (Icons::Nerd, true, _) => "󰋜 ",
            (Icons::Nerd, false, true) => "󰊢 ",
            (Icons::Nerd, false, false) => "󰉋 ",
        }),
{
    match (mode, global, repository) {
        (Icons::Text, _, _) => "",
        (Icons::Nerd, true, _) => "󰋜 ",
        (Icons::Nerd, false, true) => "󰊢 ",
        (Icons::Nerd, false, false) => "󰉋 ",
    }
}

/// The short form of a recorded revision: its last `:`-separated part (a
/// digest without its algorithm), cut to twelve characters.
pub open spec fn spec_short_rev(rev: Seq<char>) -> Seq<char> {
    let digest = after_last(rev, ':');
    if digest.len() > 12 {
        digest.take(12)
    } else {
        digest
    }
}

/// The short form of a recorded revision (see [`spec_short_rev`]).
pub fn short_rev(rev: &str) -> (r: String)
    ensures
        r@ == spec_short_rev(rev@),
{
    let text = chars_of(rev);
    let digest = after_last_of(text.as_slice(), ':');
    if digest.len() > 12 {
        string_of(slice_of(digest.as_slice(), 0, 12).as_slice())
    } else {
        string_of(digest.as_slice())
    }
}

/// ` · `.
pub open spec fn dot_sep() -> Seq<char> {
    seq![' ', '·', ' ']
}

/// The one-line description of a source: the decoration and URL, then the
/// subpath, the branch and the short revision of a remote source; the
/// decoration and path of a local one.
pub open spec fn spec_source_text(mode: Icons, source: SourceView) -> Seq<char> {
    match source {
        SourceView::Local { path } => match path {
            Some(p) => local_icon(mode)@ + seq![' '] + p,
            None => local_icon(mode)@,
        },
        _ => {
            let url = source.url().unwrap();
            let head = spec_source_icon(mode, source)@ + seq![' '] + url;
            let with_path = match source.subpath() {
                Some(p) => head + dot_sep() + p,
                None => head,
            };
            let with_branch = match source.branch() {
                Some(b) => with_path + dot_sep() + branch_icon(mode)@ + seq![' '] + b,
                None => with_path,
            };
            match source.revision() {
                Some(r) => with_branch + seq![' ', '('] + spec_short_rev(r) + seq![')'],
                None => with_branch,
            }
        },
    }
}

/// The one-line description of `source` (see [`spec_source_text`]).
pub fn source(mode: Icons, origin: &Source) -> (r: String)
    ensures
        r@ == spec_source_text(mode, origin@),
{
    let space = [' '];
    let sep = [' ', '·', ' '];
    match origin {
        Source::Local { path } => {
            let icon = chars_of(local(mode));
            match path {
                Some(p) => {
                    let with_space = concat(icon.as_slice(), &space);
                    let text = concat(with_space.as_slice(), chars_of(p.as_str()).as_slice());
                    string_of(text.as_slice())
                },
                None => string_of(icon.as_slice()),
            }
        },
        _ => {
            let url = match origin {
                Source::Git { url, .. } => url,
                Source::Archive { url, .. } => url,
                Source::Local { .. } => {
                    return String::new();
                },
            };
            let icon = chars_of(source_icon(mode, origin));
            let with_space = concat(icon.as_slice(), &space);
            let mut text = concat(with_space.as_slice(), chars_of(url.as_str()).as_slice());
            if let Some(p) = origin.subpath() {
                let t = concat(text.as_slice(), &sep);
                text = concat(t.as_slice(), chars_of(p.as_str()).as_slice());
            }
            if let Some(b) = origin.branch() {
                let t = concat(text.as_slice(), &sep);
                let t = concat(t.as_slice(), chars_of(branch(mode)).as_slice());
                let t = concat(t.as_slice(), &space);
                text = concat(t.as_slice(), chars_of(b.as_str()).as_slice());
            }
            if let Some(r) = origin.revision() {
                let t = concat(text.as_slice(), &[' ', '(']);
                let t = concat(t.as_slice(), chars_of(short_rev(r.as_str()).as_str()).as_slice());
                text = concat(t.as_slice(), &[')']);
            }
            string_of(text.as_slice())
        },
    }
}

/// The one-line description of a remote source, Git or archive alike,
/// begins with its decoration and URL; when the source names a subpath,
/// ` · ` and that subpath follow at once, before any branch or revision;
/// a branch follows the subpath (or the URL) after ` · ` and the branch
/// decoration; a source with none of these is described by its decoration
/// and URL alone.
pub proof fn law_source_text_shows_subpath(mode: Icons, source: SourceView)
    requires
        !(source is Local),
    ensures
        starts_with(
            spec_source_text(mode, source),
            spec_source_icon(mode, source)@ + seq![' '] + source.url().unwrap(),
        ),
        source.subpath() matches Some(p) ==> starts_with(
            spec_source_text(mode, source),
            spec_source_icon(mode, source)@ + seq![' '] + source.url().unwrap() + dot_sep() + p,
        ),
        source.branch() matches Some(b) ==> starts_with(
            spec_source_text(mode, source),
            spec_source_icon(mode, source)@ + seq![' '] + source.url().unwrap() + match source.subpath() {
                Some(p) => dot_sep() + p,
                None => Seq::<char>::empty(),
            } + dot_sep() + branch_icon(mode)@ + seq![' '] + b,
        ),
        source.branch() is None && source.subpath() is None && source.revision() is None
            ==> spec_source_text(mode, source) == spec_source_icon(mode, source)@ + seq![' ']
            + source.url().unwrap(),
{
    let head = spec_source_icon(mode, source)@ + seq![' '] + source.url().unwrap();
    let with_path = match source.subpath() {
        Some(p) => head + dot_sep() + p,
        None => head,
    };
    let with_branch = match source.branch() {
        Some(b) => with_path + dot_sep() + branch_icon(mode)@ + seq![' '] + b,
        None => with_path,
    };
    let text = spec_source_text(mode, source);
    assert(with_branch.take(with_path.len() as int) =~= with_path);
    assert(text.take(with_branch.len() as int) =~= with_branch);
    assert(text.take(with_path.len() as int) =~= with_path);
    assert(text.take(head.len() as int) =~= head);
    let path_part = match source.subpath() {
        Some(p) => dot_sep() + p,
        None => Seq::<char>::empty(),
    };
    assert(head + path_part =~= with_path);
    if let Some(b) = source.branch() {
        assert(head + path_part + dot_sep() + branch_icon(mode)@ + seq![' '] + b =~= with_branch);
    }
}

} // verus!
