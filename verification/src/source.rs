//! Source providers acquire a directory tree. Discovery, selection and
//! publication belong to the shared installation flow, independent of the
//! transport.
//!
//! The library decides which provider serves a reference and in what order
//! an HTTP endpoint is probed; the caller performs each network step and hands
//! its outcome back.
use crate::meta::{opt_str_view, opt_view, Source, SourceKind, SourceView};
use crate::reference::{
    copy_opt, has_query, or_branch, spec_from_source, spec_valid_subpath,
    validate_subpath, InstallRef, RefError, RefView,
};
use crate::text::{chars_of, find_last, has_char, last_index, slice_of, string_of};
use vstd::prelude::*;

verus! {

/// A tree acquired from a remote provider.
pub struct Acquired {
    pub url: String,
    pub kind: SourceKind,
    pub branch: Option<String>,
    pub revision: String,
}

/// What the source of an acquired tree records, for a skill at `subpath`.
pub open spec fn spec_acquired_source(
    url: Seq<char>,
    kind: SourceKind,
    branch: Option<Seq<char>>,
    revision: Seq<char>,
    subpath: Option<Seq<char>>,
) -> SourceView {
    let sp = match subpath {
        Some(s) => if s.len() > 0 {
            Some(s)
        } else {
            None
        },
        None => None,
    };
    match kind {
        SourceKind::Git => SourceView::Git { url, branch, subpath: sp, revision: Some(revision) },
        SourceKind::Archive => SourceView::Archive { url, subpath: sp, revision: Some(revision) },
    }
}

impl Acquired {
    /// The source to record for a skill at `subpath` of this tree; an empty
    /// subpath is no subpath.
    pub fn source(&self, subpath: Option<&str>) -> (r: Source)
        ensures
            r@ == spec_acquired_source(
                self.url@,
                self.kind,
                opt_view(self.branch),
                self.revision@,
                opt_str_view(subpath),
            ),
    {
        let subpath = match subpath {
            Some(s) => if s.is_empty() {
                None
            } else {
                Some(s.to_string())
            },
            None => None,
        };
        match self.kind {
            SourceKind::Git => Source::Git {
                url: self.url.clone(),
                branch: copy_opt(&self.branch),
                subpath,
                revision: Some(self.revision.clone()),
            },
            SourceKind::Archive => Source::Archive {
                url: self.url.clone(),
                subpath,
                revision: Some(self.revision.clone()),
            },
        }
    }
}

/// The next network step of an acquisition.
#[derive(Debug, Clone, PartialEq, Eq)]
pub enum Acquisition {
    /// Clone or fetch a Git repository.
    FetchGit { url: String, branch: Option<String> },
    /// Download and extract an archive.
    FetchArchive { url: String },
    /// Ask whether `url` serves a Git repository over HTTP, then call again
    /// with the answer appended to the probes.
    Probe { url: String },
}

/// An acquisition step with its text read as character sequences.
pub enum AcquisitionView {
    FetchGit { url: Seq<char>, branch: Option<Seq<char>> },
    FetchArchive { url: Seq<char> },
    Probe { url: Seq<char> },
}

impl View for Acquisition {
    type V = AcquisitionView;

    open spec fn view(&self) -> AcquisitionView {
        match self {
            Acquisition::FetchGit { url, branch } => AcquisitionView::FetchGit {
                url: url@,
                branch: opt_view(*branch),
            },
            Acquisition::FetchArchive { url } => AcquisitionView::FetchArchive { url: url@ },
            Acquisition::Probe { url } => AcquisitionView::Probe { url: url@ },
        }
    }
}

/// The step result with text read as character sequences.
pub open spec fn step_view(r: Result<Acquisition, RefError>) -> Result<AcquisitionView, RefError> {
    match r {
        Ok(a) => Ok(a@),
        Err(e) => Err(e),
    }
}

/// A URL of the form `repository@branch` without a query: the part before its
/// last `@`, and the branch after it, which holds no `/` or `:`.
pub open spec fn inline_branch_form(url: Seq<char>) -> Option<(Seq<char>, Seq<char>)> {
    let k = last_index(url, '@');
    if has_query(url) || k < 0 {
        None
    } else {
        let br = url.skip(k + 1);
        if br.len() == 0 || br.contains('/') || br.contains(':') {
            None
        } else {
            Some((url.take(k), br))
        }
    }
}

/// An HTTP endpoint without an explicit Git or archive form, after the
/// answers to the probes made so far.
pub open spec fn spec_acquire_url(
    url: Seq<char>,
    branch: Option<Seq<char>>,
    probes: Seq<bool>,
) -> Result<AcquisitionView, RefError> {
    let archive = if branch is Some {
        Err(RefError::BranchForArchive)
    } else {
        Ok(AcquisitionView::FetchArchive { url })
    };
    if probes.len() == 0 {
        Ok(AcquisitionView::Probe { url })
    } else if probes[0] {
        Ok(AcquisitionView::FetchGit { url, branch })
    } else {
        match inline_branch_form(url) {
            Some((base, inline)) => if probes.len() == 1 {
                Ok(AcquisitionView::Probe { url: base })
            } else if probes[1] {
                Ok(AcquisitionView::FetchGit { url: base, branch: or_branch(branch, Some(inline)) })
            } else {
                archive
            },
            None => archive,
        }
    }
}

/// The next step to acquire `r`, given the answers of the probes made so far.
pub open spec fn spec_acquire(r: RefView, probes: Seq<bool>) -> Result<AcquisitionView, RefError> {
    if r.subpath() is Some && !spec_valid_subpath(r.subpath()->0) {
        Err(RefError::InvalidSubpath)
    } else {
        match r {
            RefView::Local(_) => Err(RefError::LocalDirectory),
            RefView::Git { url, branch, .. } => Ok(AcquisitionView::FetchGit { url, branch }),
            RefView::Archive { url, .. } => Ok(AcquisitionView::FetchArchive { url }),
            RefView::Url { url, branch, .. } => spec_acquire_url(url, branch, probes),
        }
    }
}

/// Whether `url` has the form `repository@branch` (see [`inline_branch_form`]).
fn inline_branch(url: &str) -> (r: Option<(String, String)>)
    ensures
        match r {
            Some((base, br)) => inline_branch_form(url@) == Some((base@, br@)),
            None => inline_branch_form(url@) is None,
        },
{
    let u = chars_of(url);
    let n = u.len();
    if has_char(u.as_slice(), '?') || has_char(u.as_slice(), '#') {
        return None;
    }
    match find_last(u.as_slice(), '@') {
        Some(k) => {
            let br = slice_of(u.as_slice(), k + 1, n);
            assert(br@ == u@.skip(k + 1));
            if br.len() == 0 || has_char(br.as_slice(), '/') || has_char(br.as_slice(), ':') {
                None
            } else {
                let base = slice_of(u.as_slice(), 0, k);
                assert(base@ == u@.take(k as int));
                Some((string_of(base.as_slice()), string_of(br.as_slice())))
            }
        },
        None => None,
    }
}

/// Decides the next network step to acquire `reference`.
///
/// `probes` holds, in order, the answers to the probes this function asked
/// for so far: whether the probed URL serves a Git repository over HTTP.
pub fn acquire(reference: &InstallRef, probes: &[bool]) -> (r: Result<Acquisition, RefError>)
    ensures
        step_view(r) == spec_acquire(reference@, probes@),
{
    if let Some(path) = reference.subpath() {
        let p = chars_of(path);
        if !validate_subpath(p.as_slice()) {
            return Err(RefError::InvalidSubpath);
        }
    }
    match reference {
        InstallRef::Local(_) => Err(RefError::LocalDirectory),
        InstallRef::Git { url, branch, .. } => Ok(
            Acquisition::FetchGit { url: url.clone(), branch: copy_opt(branch) },
        ),
        InstallRef::Archive { url, .. } => Ok(Acquisition::FetchArchive { url: url.clone() }),
        InstallRef::Url { url, branch, .. } => {
            if probes.len() == 0 {
                return Ok(Acquisition::Probe { url: url.clone() });
            }
            if probes[0] {
                return Ok(Acquisition::FetchGit { url: url.clone(), branch: copy_opt(branch) });
            }
            if let Some((base, inline)) = inline_branch(url.as_str()) {
                if probes.len() == 1 {
                    return Ok(Acquisition::Probe { url: base });
                }
                if probes[1] {
                    let b = match branch {
                        Some(b) => Some(b.clone()),
                        None => Some(inline),
                    };
                    return Ok(Acquisition::FetchGit { url: base, branch: b });
                }
            }
            if branch.is_some() {
                Err(RefError::BranchForArchive)
            } else {
                Ok(Acquisition::FetchArchive { url: url.clone() })
            }
        },
    }
}

/// The tree of a downloaded archive, identified by the hash of its contents.
pub fn fetch_archive(url: &str, revision: String) -> (r: Acquired)
    ensures
        r.url@ == url@,
        r.kind == SourceKind::Archive,
        r.branch is None,
        r.revision == revision,
{
    Acquired { url: url.to_string(), kind: SourceKind::Archive, branch: None, revision }
}

/// How the latest upstream revision of a source is found.
#[derive(Debug, Clone, PartialEq, Eq)]
pub enum RevisionLookup {
    /// Ask the Git remote for the head of `branch` (or its default branch).
    GitRemote { url: String, branch: Option<String> },
    /// Acquire the reference again; the revision is the hash of the tree.
    Acquire(InstallRef),
}

/// Finds how to learn the latest revision of `source`.
pub fn latest_revision(source: &Source) -> (r: Result<RevisionLookup, RefError>)
    ensures
        match r {
            Ok(RevisionLookup::GitRemote { url, branch }) => spec_from_source(source@) == Ok::<
                RefView,
                RefError,
            >(RefView::Git { url: url@, branch: opt_view(branch), subpath: source@.subpath() }),
            Ok(RevisionLookup::Acquire(reference)) => spec_from_source(source@) == Ok::<
                RefView,
                RefError,
            >(reference@) && !(reference@ is Git),
            Err(e) => spec_from_source(source@) == Err::<RefView, RefError>(e),
        },
{
    let reference = InstallRef::from_source(source)?;
    match reference {
        InstallRef::Git { url, branch, .. } => Ok(RevisionLookup::GitRemote { url, branch }),
        other => Ok(RevisionLookup::Acquire(other)),
    }
}

/// Only providers with addressable history can supply a three-way diff base:
/// for a Git reference, whether the revision was checked out in the tree.
pub fn checkout_revision(reference: &InstallRef, checked_out: bool) -> (r: bool)
    ensures
        r == (reference is Git && checked_out),
{
    match reference {
        InstallRef::Git { .. } => checked_out,
        _ => false,
    }
}

/// A recorded source is fetched again from the provider it was acquired
/// with, without probing: the reference rebuilt from it acquires a Git
/// source by cloning the same URL and branch, and an archive source by
/// downloading the same URL, whatever the probes would have answered.
pub proof fn law_recorded_source_keeps_provider(
    url: Seq<char>,
    kind: SourceKind,
    branch: Option<Seq<char>>,
    revision: Seq<char>,
    subpath: Option<Seq<char>>,
    probes: Seq<bool>,
)
    requires
        subpath matches Some(s) ==> (s.len() > 0 ==> spec_valid_subpath(s)),
    ensures
        spec_from_source(spec_acquired_source(url, kind, branch, revision, subpath)) matches Ok(r)
            && spec_acquire(r, probes) == (match kind {
            SourceKind::Git => Ok::<AcquisitionView, RefError>(
                AcquisitionView::FetchGit { url, branch },
            ),
            SourceKind::Archive => Ok(AcquisitionView::FetchArchive { url }),
        }),
{
}

/// The progress line shown as a step starts, after `probes_made` probes:
/// identifying an HTTP endpoint is announced once, before its first probe,
/// and downloading an archive announces itself; Git reports its own
/// progress.
pub open spec fn spec_step_progress(step: AcquisitionView, probes_made: nat) -> Option<&'static str> {
    match step {
        AcquisitionView::Probe { .. } => if probes_made == 0 {
            Some("Fetch: identifying URL source…")
        } else {
            None
        },
        AcquisitionView::FetchArchive { .. } => Some("Download: fetching and extracting archive…"),
        AcquisitionView::FetchGit { .. } => None,
    }
}

impl Acquisition {
    /// The progress line shown as this step starts (see
    /// [`spec_step_progress`]).
    pub fn progress(&self, probes_made: usize) -> (r: Option<&'static str>)
        ensures
            r == spec_step_progress(self@, probes_made as nat),
    {
        match self {
            Acquisition::Probe { .. } => if probes_made == 0 {
                Some("Fetch: identifying URL source…")
            } else {
                None
            },
            Acquisition::FetchArchive { .. } => Some("Download: fetching and extracting archive…"),
            Acquisition::FetchGit { .. } => None,
        }
    }
}

/// The source recorded for a skill found at a non-empty `subpath` of an
/// acquired tree keeps that subpath, whichever provider the tree came from,
/// together with the tree's URL and revision; an absent or empty subpath
/// records none. A Git source keeps its branch too.
pub proof fn law_recorded_source_keeps_subpath(
    url: Seq<char>,
    kind: SourceKind,
    branch: Option<Seq<char>>,
    revision: Seq<char>,
    subpath: Option<Seq<char>>,
)
    ensures
        spec_acquired_source(url, kind, branch, revision, subpath).subpath() == (match subpath {
            Some(s) => if s.len() > 0 {
                Some(s)
            } else {
                None::<Seq<char>>
            },
            None => None,
        }),
        spec_acquired_source(url, kind, branch, revision, subpath).url() == Some(url),
        spec_acquired_source(url, kind, branch, revision, subpath).revision() == Some(revision),
        kind == SourceKind::Git ==> spec_acquired_source(url, kind, branch, revision, subpath).branch()
            == branch,
{
}

} // verus!
