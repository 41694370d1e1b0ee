//! Reading ZIP and TAR archives held in memory, and planning their
//! extraction.
//!
//! The `zip` and `tar` crates parse the archives; every decision about what
//! is written, where, and within which limits is made here. The plan lists
//! the directories to create and the files to write with their bytes; the
//! caller only carries it out, into a private directory that is published
//! once the whole plan succeeded.
use crate::archive::{
    check_tar_record, check_zip_index, file_permissions, mode_kind, ranges_overlap, safe_path,
    spec_safe_path, spec_zip_entry_count, tar_entry_action, zip_data_range, zip_entry_action,
    zip_entry_count, ArchiveError, EntryAction, MAX_METADATA,
};
use crate::archive::{is_control, law_safe_path_components, spec_detect, Format};
use crate::decompress::{compressed_expansion, expansion_outcome, unpack_payload, Payload};
use std::io::{Cursor, Read};
use vstd::prelude::*;
use vstd::utf8::encode_utf8;

verus! {

/// A ZIP entry as its central directory describes it.
#[derive(Debug, Clone)]
pub struct ZipEntryInfo {
    /// Its name, when the archive's encoding of it can be read.
    pub name: Option<String>,
    pub is_dir: bool,
    /// Its Unix mode, when the archive records one.
    pub unix_mode: Option<u32>,
    /// Where its data start in the archive, when known.
    pub data_start: Option<u64>,
    pub compressed_size: u64,
    /// Its declared expanded size.
    pub size: u64,
    /// Whether it can be opened for reading (`ZipArchive::by_index`).
    pub opens: bool,
}

/// A ZIP entry's fields as plain values.
pub type ZipEntryView = (Option<Seq<char>>, bool, Option<u32>, Option<u64>, u64, u64, bool);

/// A ZIP entry's fields as plain values.
pub open spec fn zip_entry_view(e: ZipEntryInfo) -> ZipEntryView {
    (
        match e.name {
            Some(n) => Some(n@),
            None => None,
        },
        e.is_dir,
        e.unix_mode,
        e.data_start,
        e.compressed_size,
        e.size,
        e.opens,
    )
}

/// A ZIP index as plain values.
pub open spec fn index_view(r: Option<(usize, Vec<ZipEntryInfo>)>) -> Option<(nat, Seq<ZipEntryView>)> {
    match r {
        Some((n, v)) => Some((n as nat, v@.map_values(|e: ZipEntryInfo| zip_entry_view(e)))),
        None => None,
    }
}

/// What `zip::ZipArchive` reads of `data`: its number of entries, and the
/// entries that `by_index_raw` describes, in order, up to the first that it
/// cannot (all of them when it can); `None` when the archive cannot be read.
pub uninterp spec fn zip_index_of(data: Seq<u8>) -> Option<(nat, Seq<ZipEntryView>)>;

/// The expanded bytes of ZIP entry `index` of `data`, read to their end
/// (the checksum checked); `None` when it cannot be opened or a read fails.
pub uninterp spec fn zip_content_of(data: Seq<u8>, index: int) -> Option<Seq<u8>>;

/// `ZipArchive::new` over `data`, then `by_index_raw` for each entry in
/// turn (`name`, `is_dir`, `unix_mode`, `data_start`, `compressed_size`,
/// `size`) and whether `by_index` opens it, stopping at the first entry it
/// cannot describe. Claimed: the result is [`zip_index_of`] of the bytes,
/// with no more entries than the archive holds.
#[verifier::external_body]
fn zip_index(data: &[u8]) -> (r: Option<(usize, Vec<ZipEntryInfo>)>)
    ensures
        zip_index_of(data@) == index_view(r),
        r matches Some((n, v)) ==> v@.len() <= n,
{
    let mut archive = zip::ZipArchive::new(Cursor::new(data)).ok()?;
    let mut out = Vec::new();
    for i in 0..archive.len() {
        let Ok(e) = archive.by_index_raw(i) else { break };
        let (name, is_dir, unix_mode) = (e.name().ok().map(|n| n.into_owned()), e.is_dir(), e.unix_mode());
        let (data_start, compressed_size, size) = (e.data_start(), e.compressed_size(), e.size());
        drop(e);
        let opens = archive.by_index(i).is_ok();
        out.push(ZipEntryInfo { name, is_dir, unix_mode, data_start, compressed_size, size, opens });
    }
    Some((archive.len(), out))
}

/// The first `cap` bytes of `c`, or all of them when there are fewer.
pub open spec fn first_bytes(c: Seq<u8>, cap: int) -> Seq<u8> {
    if c.len() < cap {
        c
    } else {
        c.take(cap)
    }
}

/// Whether `read`, a read of at most `cap` bytes, agrees with `content`:
/// a content that decodes gives its first `cap` bytes (all of them when
/// fewer), and a read that stops short of `cap` has reached the end of a
/// content that decodes.
pub open spec fn capped_read(read: Option<Seq<u8>>, content: Option<Seq<u8>>, cap: int) -> bool {
    &&& content matches Some(c) ==> read == Some(first_bytes(c, cap))
    &&& read matches Some(b) ==> b.len() <= cap && (b.len() < cap ==> content == Some(b))
}

/// `ZipArchive::new` over `data`, then `by_index(index)` read through
/// `take(cap)` to its end. Claimed: the bytes are at most `cap`; an entry
/// whose content decodes gives its first `cap` bytes (all of them when
/// fewer), and a read that stops short of `cap` has reached the end of a
/// content that decodes.
#[verifier::external_body]
fn zip_read_entry(data: &[u8], index: usize, cap: u64) -> (r: Option<
    Vec<u8>,
>)
    ensures
        capped_read(
            match r {
                Some(b) => Some(b@),
                None => None,
            },
            zip_content_of(data@, index as int),
            cap as int,
        ),
{
    let mut archive = zip::ZipArchive::new(Cursor::new(data)).ok()?;
    let mut out = Vec::new();
    archive.by_index(index).ok()?.take(cap).read_to_end(&mut out).ok()?;
    Some(out)
}

/// A TAR record as the raw pass reads it: regular file, directory, size.
pub type TarRecord = (bool, bool, u64);

/// The records of a TAR stream read raw (extension headers included), up
/// to the first that cannot be read, and whether the stream ended cleanly.
pub uninterp spec fn tar_records_of(data: Seq<u8>) -> (Seq<TarRecord>, bool);

/// `tar::Archive::entries().raw(true)` over `data`: each record's entry
/// type (`is_file`, `is_dir`) and `size`, stopping at the first error.
/// Claimed: the result is [`tar_records_of`] of the bytes.
#[verifier::external_body]
fn tar_records(data: &[u8]) -> (r: (Vec<TarRecord>, bool))
    ensures
        (r.0@, r.1) == tar_records_of(data@),
{
    let mut archive = tar::Archive::new(data);
    let mut out = Vec::new();
    for e in archive.entries().into_iter().flat_map(|e| e.raw(true)) {
        let Ok(e) = e else { return (out, false) };
        out.push((e.header().entry_type().is_file(), e.header().entry_type().is_dir(), e.size()));
    }
    (out, true)
}

/// A TAR entry as the extracting pass reads it.
#[derive(Debug, Clone)]
pub struct TarEntryInfo {
    /// Its path: `None` when it cannot be read, `Some(None)` when it is not
    /// UTF-8.
    pub path: Option<Option<String>>,
    pub is_dir: bool,
    pub is_file: bool,
    /// Its declared size.
    pub size: u64,
    /// Its mode, when the header's field can be read.
    pub mode: Option<u32>,
    /// Its bytes read to their end, when the read succeeds.
    pub content: Option<Vec<u8>>,
}

/// A TAR entry's fields as plain values.
pub type TarEntryView = (Option<Option<Seq<char>>>, bool, bool, u64, Option<u32>, Option<Seq<u8>>);

/// A TAR entry's fields as plain values.
pub open spec fn tar_entry_view(e: TarEntryInfo) -> TarEntryView {
    (
        match e.path {
            Some(Some(p)) => Some(Some(p@)),
            Some(None) => Some(None),
            None => None,
        },
        e.is_dir,
        e.is_file,
        e.size,
        e.mode,
        match e.content {
            Some(c) => Some(c@),
            None => None,
        },
    )
}

/// The entries of a TAR stream (extension headers applied), up to the first
/// that cannot be read, and whether the stream ended cleanly.
pub uninterp spec fn tar_entries_of(data: Seq<u8>) -> (Seq<TarEntryView>, bool);

/// `tar::Archive::entries()` over `data`: each entry's `path` (as UTF-8),
/// entry type, `size`, header `mode` and bytes read to their end, stopping
/// at the first error. Claimed: the result is [`tar_entries_of`] of the
/// bytes.
#[verifier::external_body]
fn tar_entries(data: &[u8]) -> (r: (Vec<TarEntryInfo>, bool))
    ensures
        (r.0@.map_values(|e: TarEntryInfo| tar_entry_view(e)), r.1) == tar_entries_of(data@),
{
    let mut archive = tar::Archive::new(data);
    let mut out = Vec::new();
    for e in archive.entries().into_iter().flatten() {
        let Ok(mut e) = e else { return (out, false) };
        let path = e.path().ok().map(|p| p.to_str().map(String::from));
        let mut bytes = Vec::new();
        let content = e.read_to_end(&mut bytes).ok().map(|_| bytes);
        let kind = e.header().entry_type();
        out.push(TarEntryInfo { path, is_dir: kind.is_dir(), is_file: kind.is_file(), size: e.size(), mode: e.header().mode().ok(), content });
    }
    (out, true)
}

/// A step of an extraction: create a directory, or write a file with its
/// permissions.
#[derive(Debug, Clone, PartialEq, Eq)]
pub enum ExtractStep {
    Directory(Vec<String>),
    File { parts: Vec<String>, bytes: Vec<u8>, permissions: u32 },
}

/// A step as plain values: whether it writes a file, the path's
/// components, the bytes and the permissions.
pub type StepView = (bool, Seq<Seq<char>>, Seq<u8>, u32);

/// The components of a path as character sequences.
pub open spec fn parts_view(parts: Vec<String>) -> Seq<Seq<char>> {
    parts@.map_values(|s: String| s@)
}

/// A step as plain values.
pub open spec fn step_view(s: ExtractStep) -> StepView {
    match s {
        ExtractStep::Directory(parts) => (false, parts_view(parts), Seq::empty(), 0u32),
        ExtractStep::File { parts, bytes, permissions } => (true, parts_view(parts), bytes@, permissions),
    }
}

/// A plan as plain values.
pub open spec fn extraction_view(r: Result<Vec<ExtractStep>, ArchiveError>) -> Result<
    Seq<StepView>,
    ArchiveError,
> {
    match r {
        Ok(v) => Ok(v@.map_values(|s: ExtractStep| step_view(s))),
        Err(e) => Err(e),
    }
}

/// `steps` followed by the outcome of the rest.
pub open spec fn then_rest(steps: Seq<StepView>, rest: Result<Seq<StepView>, ArchiveError>) -> Result<
    Seq<StepView>,
    ArchiveError,
> {
    match rest {
        Ok(more) => Ok(steps + more),
        Err(e) => Err(e),
    }
}

/// The length of a text in UTF-8 bytes, as `str::len` gives it.
pub open spec fn str_len(s: Seq<char>) -> int {
    encode_utf8(s).len() as usize as int
}

/// The permissions a file is written with (see [`file_permissions`]).
pub open spec fn permissions(mode: u32) -> u32 {
    0o644u32 | (mode & 0o111u32)
}

/// A file of `expected` bytes at a path of `components` components within
/// `remaining` bytes of budget, whose content read as `content`.
pub open spec fn file_outcome(
    parts: Seq<Seq<char>>,
    expected: u64,
    remaining: u64,
    content: Option<Seq<u8>>,
    mode: u32,
) -> Result<(StepView, u64), ArchiveError> {
    if parts.len() == 0 || expected > remaining {
        Err(ArchiveError::FileTooLarge)
    } else {
        match content {
            None => Err(ArchiveError::Corrupt),
            Some(c) => if c.len() > expected {
                Err(ArchiveError::SizeLimit)
            } else if c.len() < expected {
                Err(ArchiveError::Truncated)
            } else {
                Ok(((true, parts, c, permissions(mode)), (remaining - expected) as u64))
            },
        }
    }
}

/// The data ranges of ZIP entries `i..count` that hold compressed data:
/// an entry the directory could not describe, one without a data offset,
/// and one whose range overflows are refused, the first in order.
pub open spec fn zip_ranges(count: nat, entries: Seq<ZipEntryView>, i: int) -> Result<
    Seq<(u64, u64)>,
    ArchiveError,
>
    decreases count - i,
{
    if i >= count || i < 0 {
        Ok(Seq::empty())
    } else if i >= entries.len() {
        Err(ArchiveError::Corrupt)
    } else {
        let e = entries[i];
        let head: Result<Option<(u64, u64)>, ArchiveError> = if e.4 == 0 {
            Ok(None)
        } else {
            match e.3 {
                None => Err(ArchiveError::Corrupt),
                Some(start) => if start + e.4 > u64::MAX {
                    Err(ArchiveError::InvalidRange)
                } else {
                    Ok(Some((start, (start + e.4) as u64)))
                },
            }
        };
        match head {
            Err(x) => Err(x),
            Ok(h) => match zip_ranges(count, entries, i + 1) {
                Err(x) => Err(x),
                Ok(rest) => Ok(
                    match h {
                        None => rest,
                        Some(p) => seq![p] + rest,
                    },
                ),
            },
        }
    }
}

/// The step for ZIP entry `i` of `data` within `remaining` bytes, and the
/// budget left after it: the entry must open and have a name, a safe path
/// and a supported kind; a file must fit the budget and read back exactly
/// its declared size.
pub open spec fn zip_step(data: Seq<u8>, e: ZipEntryView, i: int, remaining: u64) -> Result<
    (StepView, u64),
    ArchiveError,
> {
    if !e.6 {
        Err(ArchiveError::Corrupt)
    } else {
        match e.0 {
            None => Err(ArchiveError::Corrupt),
            Some(name) => match spec_safe_path(name, str_len(name)) {
                Err(x) => Err(x),
                Ok(parts) => {
                    let mode = match e.2 {
                        Some(m) => m,
                        None => 0u32,
                    };
                    if !(mode_kind(mode) == 0 || mode_kind(mode) == 0o100000 || mode_kind(mode)
                        == 0o040000) {
                        Err(ArchiveError::UnsupportedEntry)
                    } else if e.1 {
                        Ok(((false, parts, Seq::empty(), 0u32), remaining))
                    } else {
                        file_outcome(parts, e.5, remaining, zip_content_of(data, i), mode)
                    }
                },
            },
        }
    }
}

/// The steps for ZIP entries `i..` within `remaining` bytes: each in turn,
/// the first refusal stopping the plan.
pub open spec fn zip_steps(data: Seq<u8>, entries: Seq<ZipEntryView>, i: int, remaining: u64) -> Result<
    Seq<StepView>,
    ArchiveError,
>
    decreases entries.len() - i,
{
    if i >= entries.len() || i < 0 {
        Ok(Seq::empty())
    } else {
        match zip_step(data, entries[i], i, remaining) {
            Err(x) => Err(x),
            Ok((step, left)) => then_rest(seq![step], zip_steps(data, entries, i + 1, left)),
        }
    }
}

/// The plan for a ZIP archive: its declared entry count is checked first,
/// then that the directory holds that many entries, then its data ranges, then every entry in order within
/// `byte_limit` expanded bytes.
pub open spec fn spec_plan_zip(data: Seq<u8>, byte_limit: u64, entry_limit: usize) -> Result<
    Seq<StepView>,
    ArchiveError,
> {
    match spec_zip_entry_count(data, entry_limit as int) {
        Err(x) => Err(x),
        Ok(declared) => match zip_index_of(data) {
            None => Err(ArchiveError::Corrupt),
            Some((count, entries)) => if declared != count {
                Err(ArchiveError::DuplicateEntries)
            } else {
                match zip_ranges(count, entries, 0) {
                    Err(x) => Err(x),
                    Ok(ranges) => if ranges_overlap(ranges) {
                        Err(ArchiveError::OverlappingData)
                    } else {
                        zip_steps(data, entries, 0, byte_limit)
                    },
                }
            },
        },
    }
}

/// Whether a ZIP plan is the `planned` one; where an entry's content fails
/// to decode, the read may instead have passed the entry's declared size
/// first, and the refusal is then the size limit.
pub open spec fn zip_plan_matches(
    got: Result<Seq<StepView>, ArchiveError>,
    planned: Result<Seq<StepView>, ArchiveError>,
) -> bool {
    got == planned || (planned == Err::<Seq<StepView>, ArchiveError>(ArchiveError::Corrupt) && got
        == Err::<Seq<StepView>, ArchiveError>(ArchiveError::SizeLimit))
}

/// Plans the extraction of a ZIP archive (see [`spec_plan_zip`] and
/// [`zip_plan_matches`]).
pub fn plan_zip_extraction(data: &[u8], byte_limit: u64, entry_limit: usize) -> (r: Result<
    Vec<ExtractStep>,
    ArchiveError,
>)
    requires
        byte_limit < u64::MAX,
    ensures
        zip_plan_matches(extraction_view(r), spec_plan_zip(data@, byte_limit, entry_limit)),
{
    let declared = match zip_entry_count(data, entry_limit) {
        Err(x) => {
            return Err(x);
        },
        Ok(n) => n,
    };
    let (count, entries) = match zip_index(data) {
        None => {
            return Err(ArchiveError::Corrupt);
        },
        Some(found) => found,
    };
    let ghost ev = entries@.map_values(|e: ZipEntryInfo| zip_entry_view(e));
    if declared != count {
        return Err(ArchiveError::DuplicateEntries);
    }
    let mut ranges: Vec<(u64, u64)> = Vec::new();
    let mut i: usize = 0;
    while i < count
        invariant
            i <= count,
            i <= entries@.len() <= count,
            declared == count,
            zip_index_of(data@) == Some((count as nat, ev)),
            spec_zip_entry_count(data@, entry_limit as int) == Ok::<int, ArchiveError>(declared as int),
            ev == entries@.map_values(|e: ZipEntryInfo| zip_entry_view(e)),
            zip_ranges(count as nat, ev, 0) == match zip_ranges(count as nat, ev, i as int) {
                Ok(rest) => Ok::<Seq<(u64, u64)>, ArchiveError>(ranges@ + rest),
                Err(x) => Err(x),
            },
        decreases count - i,
    {
        if i >= entries.len() {
            return Err(ArchiveError::Corrupt);
        }
        let e = &entries[i];
        assert(ev[i as int] == zip_entry_view(*e));
        let ghost before = ranges@;
        if e.compressed_size != 0 {
            let start = match e.data_start {
                None => {
                    return Err(ArchiveError::Corrupt);
                },
                Some(s) => s,
            };
            match zip_data_range(start, e.compressed_size) {
                Err(x) => {
                    return Err(x);
                },
                Ok(range) => {
                    ranges.push(range);
                },
            }
        }
        proof {
            match zip_ranges(count as nat, ev, i + 1) {
                Ok(rest) => {
                    assert(ranges@ + rest =~= before + (if e.compressed_size == 0 {
                        rest
                    } else {
                        seq![ranges@.last()] + rest
                    }));
                },
                Err(_) => {},
            }
        }
        i = i + 1;
    }
    proof {
        assert(ranges@ + Seq::<(u64, u64)>::empty() =~= ranges@);
    }
    match check_zip_index(declared, count, ranges.as_slice()) {
        Err(x) => {
            return Err(x);
        },
        Ok(()) => {},
    }
    let mut remaining: u64 = byte_limit;
    let mut steps: Vec<ExtractStep> = Vec::new();
    let mut k: usize = 0;
    assert(entries@.len() == count);
    while k < entries.len()
        invariant
            spec_plan_zip(data@, byte_limit, entry_limit) == zip_steps(data@, ev, 0, byte_limit),
            k <= entries@.len(),
            ev == entries@.map_values(|e: ZipEntryInfo| zip_entry_view(e)),
            remaining <= byte_limit < u64::MAX,
            zip_steps(data@, ev, 0, byte_limit) == then_rest(
                steps@.map_values(|s: ExtractStep| step_view(s)),
                zip_steps(data@, ev, k as int, remaining),
            ),
        decreases entries@.len() - k,
    {
        let e = &entries[k];
        assert(ev[k as int] == zip_entry_view(*e));
        let ghost prior = steps@.map_values(|s: ExtractStep| step_view(s));
        let step = zip_entry_step(data, e, k, remaining);
        match step {
            Err(x) => {
                return Err(x);
            },
            Ok((next, left)) => {
                let ghost sv = step_view(next);
                steps.push(next);
                proof {
                    assert(steps@.map_values(|s: ExtractStep| step_view(s)) =~= prior.push(sv));
                    match zip_steps(data@, ev, k + 1, left) {
                        Ok(more) => {
                            assert(prior + (seq![sv] + more) =~= prior.push(sv) + more);
                        },
                        Err(_) => {},
                    }
                }
                remaining = left;
            },
        }
        k = k + 1;
    }
    proof {
        let done = steps@.map_values(|s: ExtractStep| step_view(s));
        assert(done + Seq::<StepView>::empty() =~= done);
    }
    Ok(steps)
}

/// The step for one ZIP entry (see [`zip_step`]); a content that fails to
/// decode may be reported as passing the size limit instead.
fn zip_entry_step(data: &[u8], e: &ZipEntryInfo, index: usize, remaining: u64) -> (r: Result<
    (ExtractStep, u64),
    ArchiveError,
>)
    requires
        remaining < u64::MAX,
    ensures
        match r {
            Ok((s, left)) => zip_step(data@, zip_entry_view(*e), index as int, remaining) == Ok::<
                (StepView, u64),
                ArchiveError,
            >((step_view(s), left)) && left <= remaining,
            Err(x) => zip_step(data@, zip_entry_view(*e), index as int, remaining) == Err::<
                (StepView, u64),
                ArchiveError,
            >(x) || (x == ArchiveError::SizeLimit && zip_step(
                data@,
                zip_entry_view(*e),
                index as int,
                remaining,
            ) == Err::<(StepView, u64), ArchiveError>(ArchiveError::Corrupt)),
        },
{
    if !e.opens {
        return Err(ArchiveError::Corrupt);
    }
    let name = match &e.name {
        None => {
            return Err(ArchiveError::Corrupt);
        },
        Some(n) => n,
    };
    let parts = match safe_path(name.as_str()) {
        Err(x) => {
            return Err(x);
        },
        Ok(p) => p,
    };
    assert(zip_entry_view(*e).0 == Some(name@));
    let mode: u32 = match e.unix_mode {
        Some(m) => m,
        None => 0,
    };
    match zip_entry_action(mode, e.is_dir) {
        Err(x) => Err(x),
        Ok(EntryAction::Directory) => Ok((ExtractStep::Directory(parts), remaining)),
        Ok(EntryAction::File) => {
            if parts.len() == 0 || e.size > remaining {
                return Err(ArchiveError::FileTooLarge);
            }
            let read = zip_read_entry(data, index, e.size + 1);
            file_step(parts, e.size, remaining, read, mode)
        },
    }
}

/// The step for a file of `expected` bytes whose content was read as `read`
/// (see [`file_outcome`]).
fn file_step(parts: Vec<String>, expected: u64, remaining: u64, read: Option<Vec<u8>>, mode: u32) -> (r:
    Result<(ExtractStep, u64), ArchiveError>)
    requires
        parts@.len() > 0,
        expected <= remaining,
    ensures
        match r {
            Ok((s, left)) => read matches Some(b) && b@.len() == expected && step_view(s) == (
                true,
                parts_view(parts),
                b@,
                permissions(mode),
            ) && left == remaining - expected,
            Err(x) => match read {
                None => x == ArchiveError::Corrupt,
                Some(b) => (b@.len() > expected && x == ArchiveError::SizeLimit) || (b@.len()
                    < expected && x == ArchiveError::Truncated),
            },
        },
{
    match read {
        None => Err(ArchiveError::Corrupt),
        Some(bytes) => {
            let n = bytes.len() as u64;
            if n > expected {
                Err(ArchiveError::SizeLimit)
            } else if n < expected {
                Err(ArchiveError::Truncated)
            } else {
                let permissions = file_permissions(mode);
                Ok((ExtractStep::File { parts, bytes, permissions }, remaining - expected))
            }
        },
    }
}

/// Whether TAR records `i..` pass before extraction (see
/// [`check_tar_record`]), and the stream of them ended cleanly.
pub open spec fn tar_record_check(records: Seq<TarRecord>, clean: bool, i: int, entry_limit: usize) -> Result<
    (),
    ArchiveError,
>
    decreases records.len() - i,
{
    if i < 0 || i >= records.len() {
        if clean {
            Ok(())
        } else {
            Err(ArchiveError::Corrupt)
        }
    } else if i >= entry_limit {
        Err(ArchiveError::TooManyEntries)
    } else if !records[i].0 && !records[i].1 && records[i].2 > MAX_METADATA {
        Err(ArchiveError::MetadataTooLarge)
    } else {
        tar_record_check(records, clean, i + 1, entry_limit)
    }
}

/// The step for a TAR entry within `remaining` bytes, and the budget left
/// after it: its path must be readable, UTF-8 and safe; a directory is
/// created, a regular file must have a readable mode, fit the budget and
/// read back exactly its declared size, and anything else is refused.
pub open spec fn tar_step(e: TarEntryView, remaining: u64) -> Result<(StepView, u64), ArchiveError> {
    match e.0 {
        None => Err(ArchiveError::Corrupt),
        Some(None) => Err(ArchiveError::NotUtf8),
        Some(Some(path)) => match spec_safe_path(path, str_len(path)) {
            Err(x) => Err(x),
            Ok(parts) => if e.1 {
                Ok(((false, parts, Seq::empty(), 0u32), remaining))
            } else if e.2 {
                match e.4 {
                    None => Err(ArchiveError::Corrupt),
                    Some(mode) => file_outcome(parts, e.3, remaining, e.5, mode),
                }
            } else {
                Err(ArchiveError::UnsupportedEntry)
            },
        },
    }
}

/// The steps for TAR entries `i..` within `remaining` bytes, each in turn,
/// the first refusal stopping the plan; a stream that did not end cleanly
/// is refused after its last readable entry.
pub open spec fn tar_steps(entries: Seq<TarEntryView>, clean: bool, i: int, remaining: u64) -> Result<
    Seq<StepView>,
    ArchiveError,
>
    decreases entries.len() - i,
{
    if i < 0 || i >= entries.len() {
        if clean {
            Ok(Seq::empty())
        } else {
            Err(ArchiveError::Corrupt)
        }
    } else {
        match tar_step(entries[i], remaining) {
            Err(x) => Err(x),
            Ok((step, left)) => then_rest(seq![step], tar_steps(entries, clean, i + 1, left)),
        }
    }
}

/// The plan for a TAR stream: every raw record is checked first, so that
/// metadata cannot pass the entry and memory limits, then every entry in
/// order within `byte_limit` expanded bytes.
pub open spec fn spec_plan_tar(data: Seq<u8>, byte_limit: u64, entry_limit: usize) -> Result<
    Seq<StepView>,
    ArchiveError,
> {
    let (records, clean) = tar_records_of(data);
    match tar_record_check(records, clean, 0, entry_limit) {
        Err(x) => Err(x),
        Ok(()) => {
            let (entries, finished) = tar_entries_of(data);
            tar_steps(entries, finished, 0, byte_limit)
        },
    }
}

/// Plans the extraction of a TAR stream (see [`spec_plan_tar`]).
pub fn plan_tar_extraction(data: &[u8], byte_limit: u64, entry_limit: usize) -> (r: Result<
    Vec<ExtractStep>,
    ArchiveError,
>)
    ensures
        extraction_view(r) == spec_plan_tar(data@, byte_limit, entry_limit),
{
    let (records, clean) = tar_records(data);
    let mut i: usize = 0;
    while i < records.len()
        invariant
            i <= records@.len(),
            (records@, clean) == tar_records_of(data@),
            tar_record_check(records@, clean, 0, entry_limit) == tar_record_check(
                records@,
                clean,
                i as int,
                entry_limit,
            ),
        decreases records@.len() - i,
    {
        let (is_file, is_dir, size) = records[i];
        assert(records@[i as int] == (is_file, is_dir, size));
        match check_tar_record(i, entry_limit, is_file, is_dir, size) {
            Err(x) => {
                return Err(x);
            },
            Ok(()) => {},
        }
        i = i + 1;
    }
    if !clean {
        return Err(ArchiveError::Corrupt);
    }
    let (entries, finished) = tar_entries(data);
    let ghost ev = entries@.map_values(|e: TarEntryInfo| tar_entry_view(e));
    let mut remaining: u64 = byte_limit;
    let mut steps: Vec<ExtractStep> = Vec::new();
    let mut k: usize = 0;
    while k < entries.len()
        invariant
            k <= entries@.len(),
            ev == entries@.map_values(|e: TarEntryInfo| tar_entry_view(e)),
            spec_plan_tar(data@, byte_limit, entry_limit) == tar_steps(ev, finished, 0, byte_limit),
            tar_steps(ev, finished, 0, byte_limit) == then_rest(
                steps@.map_values(|s: ExtractStep| step_view(s)),
                tar_steps(ev, finished, k as int, remaining),
            ),
        decreases entries@.len() - k,
    {
        let e = &entries[k];
        assert(ev[k as int] == tar_entry_view(*e));
        let ghost prior = steps@.map_values(|s: ExtractStep| step_view(s));
        match tar_entry_step(e, remaining) {
            Err(x) => {
                return Err(x);
            },
            Ok((next, left)) => {
                let ghost sv = step_view(next);
                steps.push(next);
                proof {
                    assert(steps@.map_values(|s: ExtractStep| step_view(s)) =~= prior.push(sv));
                    match tar_steps(ev, finished, k + 1, left) {
                        Ok(more) => {
                            assert(prior + (seq![sv] + more) =~= prior.push(sv) + more);
                        },
                        Err(_) => {},
                    }
                }
                remaining = left;
            },
        }
        k = k + 1;
    }
    if !finished {
        return Err(ArchiveError::Corrupt);
    }
    proof {
        let done = steps@.map_values(|s: ExtractStep| step_view(s));
        assert(done + Seq::<StepView>::empty() =~= done);
    }
    Ok(steps)
}

/// The step for one TAR entry (see [`tar_step`]).
fn tar_entry_step(e: &TarEntryInfo, remaining: u64) -> (r: Result<(ExtractStep, u64), ArchiveError>)
    ensures
        match r {
            Ok((s, left)) => tar_step(tar_entry_view(*e), remaining) == Ok::<
                (StepView, u64),
                ArchiveError,
            >((step_view(s), left)) && left <= remaining,
            Err(x) => tar_step(tar_entry_view(*e), remaining) == Err::<(StepView, u64), ArchiveError>(
                x,
            ),
        },
{
    let path = match &e.path {
        None => {
            return Err(ArchiveError::Corrupt);
        },
        Some(None) => {
            return Err(ArchiveError::NotUtf8);
        },
        Some(Some(p)) => p,
    };
    let parts = match safe_path(path.as_str()) {
        Err(x) => {
            return Err(x);
        },
        Ok(p) => p,
    };
    match tar_entry_action(e.is_dir, e.is_file) {
        Err(x) => Err(x),
        Ok(EntryAction::Directory) => Ok((ExtractStep::Directory(parts), remaining)),
        Ok(EntryAction::File) => {
            let mode = match e.mode {
                None => {
                    return Err(ArchiveError::Corrupt);
                },
                Some(m) => m,
            };
            if parts.len() == 0 || e.size > remaining {
                return Err(ArchiveError::FileTooLarge);
            }
            let content: Option<Vec<u8>> = match &e.content {
                None => None,
                Some(c) => {
                    let mut copy: Vec<u8> = Vec::new();
                    copy.extend_from_slice(c.as_slice());
                    assert(copy@ =~= c@);
                    Some(copy)
                },
            };
            file_step(parts, e.size, remaining, content, mode)
        },
    }
}

/// Plans the extraction of an archive held in memory: a ZIP archive from
/// its own bytes, a TAR stream once its compression, if any, is expanded
/// within `byte_limit` bytes.
pub fn plan_extraction(data: &[u8], byte_limit: u64, entry_limit: usize) -> (r: Result<
    Vec<ExtractStep>,
    ArchiveError,
>)
    requires
        byte_limit < u64::MAX,
    ensures
        spec_detect(data@) is None ==> r == Err::<Vec<ExtractStep>, ArchiveError>(
            ArchiveError::Unsupported,
        ),
        spec_detect(data@) == Some(Format::Zip) ==> zip_plan_matches(
            extraction_view(r),
            spec_plan_zip(data@, byte_limit, entry_limit),
        ),
        spec_detect(data@) == Some(Format::Tar) ==> extraction_view(r) == spec_plan_tar(
            data@,
            byte_limit,
            entry_limit,
        ),
        spec_detect(data@) matches Some(f) ==> (f != Format::Zip && f != Format::Tar ==> match expansion_outcome(
            compressed_expansion(f, data@),
            byte_limit as int,
        ) {
            Some(Ok(t)) => extraction_view(r) == spec_plan_tar(t, byte_limit, entry_limit),
            Some(Err(e)) => r == Err::<Vec<ExtractStep>, ArchiveError>(e),
            None => r is Err,
        }),
{
    match unpack_payload(data, byte_limit) {
        Err(e) => Err(e),
        Ok(Payload::Zip) => plan_zip_extraction(data, byte_limit, entry_limit),
        Ok(Payload::Tar(bytes)) => plan_tar_extraction(bytes.as_slice(), byte_limit, entry_limit),
    }
}

/// A path component that stays where it is put: not empty, not `.` or
/// `..`, holding no separator, backslash, colon or control character.
pub open spec fn plain_component(p: Seq<char>) -> bool {
    &&& p.len() > 0
    &&& p != seq!['.']
    &&& p != seq!['.', '.']
    &&& forall|j: int| 0 <= j < p.len() ==> p[j] != '/' && p[j] != '\\' && p[j] != ':' && !is_control(p[j])
}

/// Every step of a plan names a path of at most 64 plain components, and a
/// file at least one.
pub open spec fn steps_stay_inside(steps: Seq<StepView>) -> bool {
    forall|k: int|
        0 <= k < steps.len() ==> {
            &&& (#[trigger] steps[k]).1.len() <= 64
            &&& (steps[k].0 ==> steps[k].1.len() > 0)
            &&& forall|i: int| 0 <= i < steps[k].1.len() ==> plain_component(#[trigger] steps[k].1[i])
        }
}

/// The bytes the file steps of a plan write.
pub open spec fn written_bytes(steps: Seq<StepView>) -> int
    decreases steps.len(),
{
    if steps.len() == 0 {
        0
    } else {
        written_bytes(steps.drop_last()) + if steps.last().0 {
            steps.last().2.len() as int
        } else {
            0
        }
    }
}

proof fn lemma_written_bytes_prepend(step: StepView, rest: Seq<StepView>)
    ensures
        written_bytes(seq![step] + rest) == written_bytes(rest) + if step.0 {
            step.2.len() as int
        } else {
            0
        },
    decreases rest.len(),
{
    if rest.len() > 0 {
        lemma_written_bytes_prepend(step, rest.drop_last());
        let all = seq![step] + rest;
        assert(all.drop_last() =~= seq![step] + rest.drop_last());
        assert(all.last() == rest.last());
        assert(written_bytes(all) == written_bytes(all.drop_last()) + if all.last().0 {
            all.last().2.len() as int
        } else {
            0
        });
    } else {
        let all = seq![step] + rest;
        assert(all =~= seq![step]);
        assert(all.drop_last() =~= Seq::<StepView>::empty());
        assert(written_bytes(all) == written_bytes(all.drop_last()) + if all.last().0 {
            all.last().2.len() as int
        } else {
            0
        });
    }
}

proof fn lemma_step_inside(name: Seq<char>, parts: Seq<Seq<char>>)
    requires
        spec_safe_path(name, str_len(name)) == Ok::<Seq<Seq<char>>, ArchiveError>(parts),
    ensures
        parts.len() <= 64,
        forall|i: int| 0 <= i < parts.len() ==> plain_component(#[trigger] parts[i]),
{
    law_safe_path_components(name, str_len(name));
}

proof fn lemma_prepend_inside(step: StepView, rest: Seq<StepView>)
    requires
        step.1.len() <= 64,
        step.0 ==> step.1.len() > 0,
        forall|i: int| 0 <= i < step.1.len() ==> plain_component(#[trigger] step.1[i]),
        steps_stay_inside(rest),
    ensures
        steps_stay_inside(seq![step] + rest),
{
    let all = seq![step] + rest;
    assert forall|k: int| 0 <= k < all.len() implies {
        &&& (#[trigger] all[k]).1.len() <= 64
        &&& (all[k].0 ==> all[k].1.len() > 0)
        &&& forall|i: int| 0 <= i < all[k].1.len() ==> plain_component(#[trigger] all[k].1[i])
    } by {
        if k > 0 {
            assert(all[k] == rest[k - 1]);
        }
    }
}

proof fn lemma_zip_steps_inside(data: Seq<u8>, entries: Seq<ZipEntryView>, i: int, remaining: u64)
    ensures
        zip_steps(data, entries, i, remaining) matches Ok(steps) ==> steps_stay_inside(steps)
            && written_bytes(steps) <= remaining,
    decreases entries.len() - i,
{
    if 0 <= i < entries.len() {
        lemma_zip_steps_inside(data, entries, i + 1, 0);
        let e = entries[i];
        if let Ok((step, left)) = zip_step(data, e, i, remaining) {
            let name = e.0->0;
            lemma_step_inside(name, step.1);
            lemma_zip_steps_inside(data, entries, i + 1, left);
            if let Ok(more) = zip_steps(data, entries, i + 1, left) {
                lemma_prepend_inside(step, more);
                lemma_written_bytes_prepend(step, more);
            }
        }
    }
}

proof fn lemma_tar_steps_inside(entries: Seq<TarEntryView>, clean: bool, i: int, remaining: u64)
    ensures
        tar_steps(entries, clean, i, remaining) matches Ok(steps) ==> steps_stay_inside(steps)
            && written_bytes(steps) <= remaining,
    decreases entries.len() - i,
{
    if 0 <= i < entries.len() {
        let e = entries[i];
        if let Ok((step, left)) = tar_step(e, remaining) {
            let path = e.0->0->0;
            lemma_step_inside(path, step.1);
            lemma_tar_steps_inside(entries, clean, i + 1, left);
            if let Ok(more) = tar_steps(entries, clean, i + 1, left) {
                lemma_prepend_inside(step, more);
                lemma_written_bytes_prepend(step, more);
            }
        }
    }
}

/// An accepted extraction plan writes only inside its destination and
/// within its byte limit: every directory and file it names is a path of at
/// most 64 plain components (so no entry such as `../escape` reaches past
/// the destination), every file has a name, and the files' bytes add up to
/// at most `byte_limit`.
pub proof fn law_plans_stay_inside(data: Seq<u8>, byte_limit: u64, entry_limit: usize)
    ensures
        spec_plan_zip(data, byte_limit, entry_limit) matches Ok(steps) ==> steps_stay_inside(steps)
            && written_bytes(steps) <= byte_limit,
        spec_plan_tar(data, byte_limit, entry_limit) matches Ok(steps) ==> steps_stay_inside(steps)
            && written_bytes(steps) <= byte_limit,
{
    if let Some((count, entries)) = zip_index_of(data) {
        lemma_zip_steps_inside(data, entries, 0, byte_limit);
    }
    let (entries, finished) = tar_entries_of(data);
    lemma_tar_steps_inside(entries, finished, 0, byte_limit);
}

} // verus!
