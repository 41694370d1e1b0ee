//! Where an installed skill came from, as recorded in its metadata.
use vstd::prelude::*;

verus! {

/// The text of an optional string.
pub open spec fn opt_view(o: Option<String>) -> Option<Seq<char>> {
    match o {
        Some(s) => Some(s@),
        None => None,
    }
}

/// The text of an optional string slice.
pub open spec fn opt_str_view(o: Option<&str>) -> Option<Seq<char>> {
    match o {
        Some(s) => Some(s@),
        None => None,
    }
}

/// The recorded origin of a skill.
#[derive(Debug, Clone, PartialEq, Eq)]
pub enum Source {
    Git { url: String, branch: Option<String>, subpath: Option<String>, revision: Option<String> },
    Archive { url: String, subpath: Option<String>, revision: Option<String> },
    Local { path: Option<String> },
}

/// The provider family of an acquired tree.
#[derive(Debug, Clone, Copy, PartialEq, Eq)]
pub enum SourceKind {
    Git,
    Archive,
}

/// A source with its text fields read as character sequences.
pub enum SourceView {
    Git {
        url: Seq<char>,
        branch: Option<Seq<char>>,
        subpath: Option<Seq<char>>,
        revision: Option<Seq<char>>,
    },
    Archive { url: Seq<char>, subpath: Option<Seq<char>>, revision: Option<Seq<char>> },
    Local { path: Option<Seq<char>> },
}

impl View for Source {
    type V = SourceView;

    open spec fn view(&self) -> SourceView {
        match self {
            Source::Git { url, branch, subpath, revision } => SourceView::Git {
                url: url@,
                branch: opt_view(*branch),
                subpath: opt_view(*subpath),
                revision: opt_view(*revision),
            },
            Source::Archive { url, subpath, revision } => SourceView::Archive {
                url: url@,
                subpath: opt_view(*subpath),
                revision: opt_view(*revision),
            },
            Source::Local { path } => SourceView::Local { path: opt_view(*path) },
        }
    }
}

impl SourceView {
    /// The upstream URL of a remote source.
    pub open spec fn url(self) -> Option<Seq<char>> {
        match self {
            SourceView::Git { url, .. } => Some(url),
            SourceView::Archive { url, .. } => Some(url),
            SourceView::Local { .. } => None,
        }
    }

    /// The directory inside the upstream tree that holds the skill.
    pub open spec fn subpath(self) -> Option<Seq<char>> {
        match self {
            SourceView::Git { subpath, .. } => subpath,
            SourceView::Archive { subpath, .. } => subpath,
            SourceView::Local { .. } => None,
        }
    }

    /// The Git branch a source follows.
    pub open spec fn branch(self) -> Option<Seq<char>> {
        match self {
            SourceView::Git { branch, .. } => branch,
            _ => None,
        }
    }

    /// The revision recorded at installation.
    pub open spec fn revision(self) -> Option<Seq<char>> {
        match self {
            SourceView::Git { revision, .. } => revision,
            SourceView::Archive { revision, .. } => revision,
            SourceView::Local { .. } => None,
        }
    }
}

/// The text of an optional borrowed string.
pub open spec fn opt_ref_view(o: Option<&String>) -> Option<Seq<char>> {
    match o {
        Some(s) => Some(s@),
        None => None,
    }
}

impl Source {
    /// Whether the skill has a remote upstream.
    pub fn is_remote(&self) -> (r: bool)
        ensures
            r == !(self is Local),
    {
        !matches!(self, Source::Local { .. })
    }

    /// The upstream URL of a remote source.
    pub fn url(&self) -> (r: Option<&str>)
        ensures
            opt_str_view(r) == self@.url(),
    {
        match self {
            Source::Git { url, .. } => Some(url.as_str()),
            Source::Archive { url, .. } => Some(url.as_str()),
            Source::Local { .. } => None,
        }
    }

    /// The directory inside the upstream tree that holds the skill.
    pub fn subpath(&self) -> (r: Option<&String>)
        ensures
            opt_ref_view(r) == self@.subpath(),
    {
        match self {
            Source::Git { subpath, .. } => subpath.as_ref(),
            Source::Archive { subpath, .. } => subpath.as_ref(),
            Source::Local { .. } => None,
        }
    }

    /// The Git branch a source follows.
    pub fn branch(&self) -> (r: Option<&String>)
        ensures
            opt_ref_view(r) == self@.branch(),
    {
        match self {
            Source::Git { branch, .. } => branch.as_ref(),
            _ => None,
        }
    }

    /// The revision recorded at installation.
    pub fn revision(&self) -> (r: Option<&String>)
        ensures
            opt_ref_view(r) == self@.revision(),
    {
        match self {
            Source::Git { revision, .. } => revision.as_ref(),
            Source::Archive { revision, .. } => revision.as_ref(),
            Source::Local { .. } => None,
        }
    }
}

} // verus!
