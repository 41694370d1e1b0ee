//! Planning the migration of legacy preset tags to fixed members.
//!
//! The whole upgrade is validated before any definition is backed up or
//! replaced: every preset file is checked, in path order, and the first
//! problem stops the plan. A preset that still lists legacy `tags` gets, as
//! its members, its skills followed by the members of those tags, each once.
//! The caller reads the directory, parses each file and writes the results;
//! the order of the writes is the state machine of [`Stage`], which hands
//! over to the replacement of [`crate::migration`].
use crate::archive::is_control;
use crate::install::{file_name, path_file_name, sort_strings, sorted_texts, string_views};
use crate::members::{added, edit_members};
use crate::migration::{start, MigrationFile, Phase};
use crate::text::{chars_of, find_last, last_index, same_chars, slice_of};
use vstd::prelude::*;

verus! {

/// Whether `bytes` are valid UTF-8 text, as `std::str::from_utf8` decides.
pub uninterp spec fn utf8_valid(bytes: Seq<u8>) -> bool;

/// `std::str::from_utf8(bytes).is_ok()`. Claimed: the answer is
/// [`utf8_valid`] of the bytes.
#[verifier::external_body]
fn is_utf8(bytes: &[u8]) -> (r: bool)
    ensures
        r == utf8_valid(bytes@),
{
    std::str::from_utf8(bytes).is_ok()
}

/// A tag and the skills it groups.
#[derive(Debug, Clone)]
pub struct TagGroup {
    pub name: String,
    pub keys: Vec<String>,
}

/// The legacy `tags` entry of a preset file.
#[derive(Debug, Clone)]
pub enum LegacyTags {
    /// The file has no `tags` entry: it needs no migration.
    Absent,
    /// The entry is not a list of strings.
    Invalid,
    /// The tags it lists.
    Listed(Vec<String>),
}

/// A preset as parsed from its file, with its `tags` entry taken out.
#[derive(Debug, Clone)]
pub struct LegacyPreset {
    pub name: String,
    pub skills: Vec<String>,
    pub tags: LegacyTags,
}

/// A preset file: its path, its bytes, and what they parse to (`None`: they
/// are not a preset).
#[derive(Debug, Clone)]
pub struct PresetFile {
    pub path: String,
    pub original: Vec<u8>,
    pub parsed: Option<LegacyPreset>,
}

/// Why the migration cannot go ahead: the file at this index is not UTF-8
/// text, is not a preset, names the preset with an invalid key, lists tags
/// that are not strings, or lists a tag that does not exist.
#[derive(Debug, Clone, Copy, PartialEq, Eq, Structural)]
pub enum PlanError {
    NotText(usize),
    NotPreset(usize),
    InvalidName(usize),
    InvalidTags(usize),
    UnknownTag(usize),
}

impl PlanError {
    /// The message for this refusal; the caller adds the file's path.
    pub fn message(&self) -> (r: &'static str)
        ensures
            r == plan_message(*self),
    {
        match self {
            PlanError::NotText(_) => "invalid UTF-8 in",
            PlanError::NotPreset(_) => "invalid preset:",
            PlanError::InvalidName(_) => "invalid preset name in",
            PlanError::InvalidTags(_) => "invalid legacy tags in",
            PlanError::UnknownTag(_) => "original presets were left unchanged; cannot migrate",
        }
    }
}

/// The message for each refusal of a plan.
pub open spec fn plan_message(e: PlanError) -> &'static str {
    match e {
        PlanError::NotText(_) => "invalid UTF-8 in",
        PlanError::NotPreset(_) => "invalid preset:",
        PlanError::InvalidName(_) => "invalid preset name in",
        PlanError::InvalidTags(_) => "invalid legacy tags in",
        PlanError::UnknownTag(_) => "original presets were left unchanged; cannot migrate",
    }
}

/// A preset to migrate: its file, its bytes as read, its name and its new
/// members.
#[derive(Debug, Clone)]
pub struct PlannedFile {
    pub path: String,
    pub original: Vec<u8>,
    pub name: String,
    pub members: Vec<String>,
}

/// A planned file with its text read as character sequences.
pub open spec fn planned_view(p: PlannedFile) -> (Seq<char>, Seq<u8>, Seq<char>, Seq<Seq<char>>) {
    (p.path@, p.original@, p.name@, string_views(p.members@))
}

/// A key that can name a skill or a preset: not empty, not `.` or `..`,
/// without a path separator, a `:` or a control character.
pub open spec fn valid_key(key: Seq<char>) -> bool {
    &&& key.len() > 0
    &&& key != "."@
    &&& key != ".."@
    &&& forall|i: int|
        0 <= i < key.len() ==> #[trigger] key[i] != '/' && key[i] != '\\' && key[i] != ':'
            && !is_control(key[i])
}

/// The index of the first group named `tag`, or -1.
pub open spec fn group_index(groups: Seq<TagGroup>, tag: Seq<char>) -> int
    decreases groups.len(),
{
    if groups.len() == 0 {
        -1
    } else if group_index(groups.drop_last(), tag) >= 0 {
        group_index(groups.drop_last(), tag)
    } else if groups.last().name@ == tag {
        groups.len() - 1
    } else {
        -1
    }
}

/// The members of `tags`, in order: the keys of each tag's group, one group
/// after the other; `None` when a tag has no group.
pub open spec fn tag_members(groups: Seq<TagGroup>, tags: Seq<Seq<char>>) -> Option<Seq<Seq<char>>>
    decreases tags.len(),
{
    if tags.len() == 0 {
        Some(Seq::<Seq<char>>::empty())
    } else {
        match tag_members(groups, tags.drop_last()) {
            None => None,
            Some(before) => {
                let k = group_index(groups, tags.last());
                if k < 0 {
                    None
                } else {
                    Some(before + string_views(groups[k].keys@))
                }
            },
        }
    }
}

/// What one preset file contributes to the plan: nothing, a planned file,
/// or a refusal (`index` is its place in the list).
pub open spec fn file_plan(file: PresetFile, index: usize, groups: Seq<TagGroup>) -> Result<
    Option<(Seq<char>, Seq<u8>, Seq<char>, Seq<Seq<char>>)>,
    PlanError,
> {
    if !utf8_valid(file.original@) {
        Err(PlanError::NotText(index))
    } else {
        match file.parsed {
            None => Err(PlanError::NotPreset(index)),
            Some(p) => match p.tags {
                LegacyTags::Absent => Ok(None),
                LegacyTags::Invalid => if !valid_key(p.name@) {
                    Err(PlanError::InvalidName(index))
                } else {
                    Err(PlanError::InvalidTags(index))
                },
                LegacyTags::Listed(tags) => if !valid_key(p.name@) {
                    Err(PlanError::InvalidName(index))
                } else {
                    match tag_members(groups, string_views(tags@)) {
                        None => Err(PlanError::UnknownTag(index)),
                        Some(extra) => Ok(
                            Some(
                                (
                                    file.path@,
                                    file.original@,
                                    p.name@,
                                    added(Seq::empty(), string_views(p.skills@) + extra),
                                ),
                            ),
                        ),
                    }
                },
            },
        }
    }
}

/// The plan for `files`, in order: the first refusal, else every file that
/// lists legacy tags, migrated.
pub open spec fn spec_plan(files: Seq<PresetFile>, groups: Seq<TagGroup>) -> Result<
    Seq<(Seq<char>, Seq<u8>, Seq<char>, Seq<Seq<char>>)>,
    PlanError,
>
    decreases files.len(),
{
    if files.len() == 0 {
        Ok(Seq::empty())
    } else {
        match spec_plan(files.drop_last(), groups) {
            Err(e) => Err(e),
            Ok(before) => match file_plan(files.last(), (files.len() - 1) as usize, groups) {
                Err(e) => Err(e),
                Ok(None) => Ok(before),
                Ok(Some(p)) => Ok(before.push(p)),
            },
        }
    }
}

/// The plan with its files read as character sequences.
pub open spec fn plan_view(r: Result<Vec<PlannedFile>, PlanError>) -> Result<
    Seq<(Seq<char>, Seq<u8>, Seq<char>, Seq<Seq<char>>)>,
    PlanError,
> {
    match r {
        Ok(v) => Ok(v@.map_values(|p: PlannedFile| planned_view(p))),
        Err(e) => Err(e),
    }
}

/// Whether `key` is a valid key (see [`valid_key`]).
pub fn is_valid_key(key: &str) -> (r: bool)
    ensures
        r == valid_key(key@),
{
    let c = chars_of(key);
    let n = c.len();
    if n == 0 {
        return false;
    }
    if n == 1 && c[0] == '.' {
        assert(key@ =~= "."@) by {
            reveal_strlit(".");
        }
        return false;
    }
    if n == 2 && c[0] == '.' && c[1] == '.' {
        assert(key@ =~= ".."@) by {
            reveal_strlit("..");
        }
        return false;
    }
    proof {
        reveal_strlit(".");
        reveal_strlit("..");
        assert(key@ != "."@ && key@ != ".."@) by {
            if key@ == "."@ {
                assert(key@[0] == '.');
            }
            if key@ == ".."@ {
                assert(key@[0] == '.' && key@[1] == '.');
            }
        }
    }
    let mut i: usize = 0;
    while i < n
        invariant
            n == c@.len(),
            c@ == key@,
            i <= n,
            forall|j: int|
                0 <= j < i ==> #[trigger] key@[j] != '/' && key@[j] != '\\' && key@[j] != ':'
                    && !is_control(key@[j]),
        decreases n - i,
    {
        let ch = c[i];
        let code = ch as u32;
        if ch == '/' || ch == '\\' || ch == ':' || code <= 0x1f || (0x7f <= code && code <= 0x9f) {
            assert(key@[i as int] == ch);
            return false;
        }
        i = i + 1;
    }
    true
}

/// The index of the first group named `tag` (see [`group_index`]).
fn find_group(groups: &[TagGroup], tag: &String) -> (r: Option<usize>)
    ensures
        match r {
            Some(k) => group_index(groups@, tag@) == k as int && k < groups@.len(),
            None => group_index(groups@, tag@) < 0,
        },
{
    let mut i: usize = 0;
    while i < groups.len()
        invariant
            i <= groups@.len(),
            group_index(groups@.take(i as int), tag@) < 0,
        decreases groups@.len() - i,
    {
        proof {
            assert(groups@.take(i + 1).drop_last() =~= groups@.take(i as int));
        }
        if groups[i].name == *tag {
            proof {
                lemma_group_index_prefix(groups@, i as int + 1, tag@);
            }
            return Some(i);
        }
        i = i + 1;
    }
    assert(groups@.take(groups@.len() as int) =~= groups@);
    None
}

/// A group found in a prefix is the first one found in the whole list.
proof fn lemma_group_index_prefix(groups: Seq<TagGroup>, n: int, tag: Seq<char>)
    requires
        0 <= n <= groups.len(),
        group_index(groups.take(n), tag) >= 0,
    ensures
        group_index(groups, tag) == group_index(groups.take(n), tag),
    decreases groups.len() - n,
{
    if n < groups.len() {
        assert(groups.take(n + 1).drop_last() =~= groups.take(n));
        lemma_group_index_prefix(groups, n + 1, tag);
    } else {
        assert(groups.take(n) =~= groups);
    }
}

/// The members of `tags` (see [`tag_members`]), or `None`.
fn members_of_tags(groups: &[TagGroup], tags: &[String]) -> (r: Option<Vec<String>>)
    ensures
        match r {
            Some(v) => tag_members(groups@, string_views(tags@)) == Some(string_views(v@)),
            None => tag_members(groups@, string_views(tags@)) is None,
        },
{
    let mut out: Vec<String> = Vec::new();
    let mut i: usize = 0;
    while i < tags.len()
        invariant
            i <= tags@.len(),
            tag_members(groups@, string_views(tags@.take(i as int))) == Some(string_views(out@)),
        decreases tags@.len() - i,
    {
        let ghost before = out@;
        proof {
            assert(string_views(tags@.take(i + 1)).drop_last() =~= string_views(
                tags@.take(i as int),
            ));
            assert(string_views(tags@.take(i + 1)).last() == tags@[i as int]@);
        }
        match find_group(groups, &tags[i]) {
            None => {
                proof {
                    lemma_tag_members_none(groups@, string_views(tags@), i as int + 1);
                }
                return None;
            },
            Some(k) => {
                let mut j: usize = 0;
                let ghost mid = out@;
                while j < groups[k].keys.len()
                    invariant
                        k < groups@.len(),
                        j <= groups@[k as int].keys@.len(),
                        string_views(out@) == string_views(mid) + string_views(
                            groups@[k as int].keys@.take(j as int),
                        ),
                    decreases groups@[k as int].keys@.len() - j,
                {
                    let ghost prev = out@;
                    out.push(groups[k].keys[j].clone());
                    assert(string_views(groups@[k as int].keys@.take(j + 1)) =~= string_views(
                        groups@[k as int].keys@.take(j as int),
                    ).push(groups@[k as int].keys@[j as int]@));
                    assert(string_views(out@) =~= string_views(prev).push(
                        groups@[k as int].keys@[j as int]@,
                    ));
                    j = j + 1;
                }
                assert(groups@[k as int].keys@.take(j as int) =~= groups@[k as int].keys@);
            },
        }
        i = i + 1;
    }
    assert(tags@.take(tags@.len() as int) =~= tags@);
    Some(out)
}

/// Once a tag is missing, the members of every longer list are missing too.
proof fn lemma_tag_members_none(groups: Seq<TagGroup>, tags: Seq<Seq<char>>, n: int)
    requires
        0 < n <= tags.len(),
        tag_members(groups, tags.take(n)) is None,
    ensures
        tag_members(groups, tags) is None,
    decreases tags.len() - n,
{
    if n < tags.len() {
        assert(tags.take(n + 1).drop_last() =~= tags.take(n));
        lemma_tag_members_none(groups, tags, n + 1);
    } else {
        assert(tags.take(n) =~= tags);
    }
}

/// Once the plan of a prefix is refused, so is the plan of every longer list.
proof fn lemma_plan_err(files: Seq<PresetFile>, groups: Seq<TagGroup>, n: int)
    requires
        0 < n <= files.len(),
        spec_plan(files.take(n), groups) is Err,
    ensures
        spec_plan(files, groups) == spec_plan(files.take(n), groups),
    decreases files.len() - n,
{
    if n < files.len() {
        assert(files.take(n + 1).drop_last() =~= files.take(n));
        lemma_plan_err(files, groups, n + 1);
    } else {
        assert(files.take(n) =~= files);
    }
}

/// Adding two lists of keys one after the other adds their concatenation.
proof fn lemma_added_concat(m: Seq<Seq<char>>, a: Seq<Seq<char>>, b: Seq<Seq<char>>)
    ensures
        added(added(m, a), b) == added(m, a + b),
    decreases b.len(),
{
    if b.len() > 0 {
        lemma_added_concat(m, a, b.drop_last());
        assert((a + b).drop_last() =~= a + b.drop_last());
        assert((a + b).last() == b.last());
    } else {
        assert(a + b =~= a);
    }
}

/// Plans the migration of `files`, given the tag groups of the
/// configuration (see [`spec_plan`]). Nothing is written: a refusal comes
/// before any file is backed up or replaced.
pub fn plan_legacy_migration(files: &[PresetFile], groups: &[TagGroup]) -> (r: Result<
    Vec<PlannedFile>,
    PlanError,
>)
    ensures
        plan_view(r) == spec_plan(files@, groups@),
{
    let mut out: Vec<PlannedFile> = Vec::new();
    let mut i: usize = 0;
    assert(files@.take(0) =~= Seq::<PresetFile>::empty());
    assert(out@.map_values(|p: PlannedFile| planned_view(p)) =~= Seq::empty());
    while i < files.len()
        invariant
            i <= files@.len(),
            spec_plan(files@.take(i as int), groups@) == Ok::<
                Seq<(Seq<char>, Seq<u8>, Seq<char>, Seq<Seq<char>>)>,
                PlanError,
            >(out@.map_values(|p: PlannedFile| planned_view(p))),
        decreases files@.len() - i,
    {
        let ghost prior = out@;
        proof {
            assert(files@.take(i + 1).drop_last() =~= files@.take(i as int));
            assert(files@.take(i + 1).last() == files@[i as int]);
        }
        let step = plan_file(&files[i], i, groups);
        match step {
            Err(e) => {
                proof {
                    lemma_plan_err(files@, groups@, i as int + 1);
                }
                return Err(e);
            },
            Ok(None) => {},
            Ok(Some(p)) => {
                let ghost pv = planned_view(p);
                out.push(p);
                assert(out@.map_values(|p: PlannedFile| planned_view(p)) =~= prior.map_values(
                    |p: PlannedFile| planned_view(p),
                ).push(pv));
            },
        }
        i = i + 1;
    }
    assert(files@.take(files@.len() as int) =~= files@);
    Ok(out)
}

/// What one file contributes (see [`file_plan`]).
fn plan_file(file: &PresetFile, index: usize, groups: &[TagGroup]) -> (r: Result<
    Option<PlannedFile>,
    PlanError,
>)
    ensures
        match r {
            Ok(Some(p)) => file_plan(*file, index, groups@) == Ok::<
                Option<(Seq<char>, Seq<u8>, Seq<char>, Seq<Seq<char>>)>,
                PlanError,
            >(Some(planned_view(p))),
            Ok(None) => file_plan(*file, index, groups@) == Ok::<
                Option<(Seq<char>, Seq<u8>, Seq<char>, Seq<Seq<char>>)>,
                PlanError,
            >(None),
            Err(e) => file_plan(*file, index, groups@) == Err::<
                Option<(Seq<char>, Seq<u8>, Seq<char>, Seq<Seq<char>>)>,
                PlanError,
            >(e),
        },
{
    if !is_utf8(file.original.as_slice()) {
        return Err(PlanError::NotText(index));
    }
    let p = match &file.parsed {
        None => {
            return Err(PlanError::NotPreset(index));
        },
        Some(p) => p,
    };
    let tags = match &p.tags {
        LegacyTags::Absent => {
            return Ok(None);
        },
        LegacyTags::Invalid => {
            if !is_valid_key(p.name.as_str()) {
                return Err(PlanError::InvalidName(index));
            }
            return Err(PlanError::InvalidTags(index));
        },
        LegacyTags::Listed(tags) => tags,
    };
    if !is_valid_key(p.name.as_str()) {
        return Err(PlanError::InvalidName(index));
    }
    let extra = match members_of_tags(groups, tags.as_slice()) {
        None => {
            return Err(PlanError::UnknownTag(index));
        },
        Some(extra) => extra,
    };
    let mut members: Vec<String> = Vec::new();
    assert(string_views(members@) =~= Seq::<Seq<char>>::empty());
    edit_members(&mut members, p.skills.as_slice(), true);
    edit_members(&mut members, extra.as_slice(), true);
    proof {
        lemma_added_concat(Seq::empty(), string_views(p.skills@), string_views(extra@));
        assert(string_views(p.skills@ + extra@) =~= string_views(p.skills@) + string_views(
            extra@,
        ));
    }
    let mut original: Vec<u8> = Vec::new();
    original.extend_from_slice(file.original.as_slice());
    assert(original@ =~= file.original@);
    Ok(
        Some(
            PlannedFile {
                path: file.path.clone(),
                original,
                name: p.name.clone(),
                members,
            },
        ),
    )
}

/// A path whose file name has the extension `toml`: the text after its
/// last `.`, when that `.` does not begin the name.
pub open spec fn is_toml_path(path: Seq<char>) -> bool {
    let name = file_name(path);
    let k = last_index(name, '.');
    k > 0 && name.skip(k + 1) == "toml"@
}

/// Whether `path` is a preset file (see [`is_toml_path`]).
pub fn toml_path(path: &str) -> (r: bool)
    ensures
        r == is_toml_path(path@),
{
    let name = path_file_name(path);
    let c = chars_of(name.as_str());
    match find_last(c.as_slice(), '.') {
        Some(k) => {
            if k == 0 {
                return false;
            }
            assert(k < c@.len());
            let ext = slice_of(c.as_slice(), k + 1, c.len());
            let toml = chars_of("toml");
            assert(ext@ =~= c@.skip(k + 1));
            same_chars(ext.as_slice(), toml.as_slice())
        },
        None => false,
    }
}

/// The preset files among the entries of the preset directory, in path
/// order.
pub fn preset_paths(entries: &[String]) -> (r: Vec<String>)
    ensures
        string_views(r@).to_multiset() == string_views(entries@).filter(
            |p: Seq<char>| is_toml_path(p),
        ).to_multiset(),
        sorted_texts(string_views(r@)),
{
    let mut out: Vec<String> = Vec::new();
    let mut i: usize = 0;
    while i < entries.len()
        invariant
            i <= entries@.len(),
            string_views(out@) == string_views(entries@.take(i as int)).filter(
                |p: Seq<char>| is_toml_path(p),
            ),
        decreases entries@.len() - i,
    {
        proof {
            reveal(Seq::filter);
            assert(string_views(entries@.take(i + 1)).drop_last() =~= string_views(
                entries@.take(i as int),
            ));
        }
        let ghost before = out@;
        if toml_path(entries[i].as_str()) {
            out.push(entries[i].clone());
            assert(string_views(out@) =~= string_views(before).push(entries@[i as int]@));
        }
        i = i + 1;
    }
    assert(entries@.take(entries@.len() as int) =~= entries@);
    sort_strings(&mut out);
    out
}

/// Why the migration stopped before replacing anything.
#[derive(Debug, Clone, Copy, PartialEq, Eq, Structural)]
pub enum StageStop {
    /// The backup of this file could not be written.
    BackupFailed(usize),
    /// This file changed after it was planned; the originals are backed up.
    Changed(usize),
}

/// Where a planned migration stands: backing up each original, then reading
/// each file again to check that nobody changed it, then replacing them.
#[derive(Debug, Clone, Copy, PartialEq, Eq, Structural)]
pub enum Stage {
    /// Write the backup of the original of this file.
    Backup(usize),
    /// Read this file and check that it still holds its original.
    Recheck(usize),
    /// Replace the files (see [`crate::migration`]).
    Replace(Phase),
    /// Stop before anything is replaced.
    Stopped(StageStop),
}

/// The stage a migration of `count` files starts in: with nothing to
/// migrate there is nothing to back up.
pub open spec fn spec_begin(count: usize) -> Stage {
    if count == 0 {
        Stage::Replace(Phase::Done)
    } else {
        Stage::Backup(0)
    }
}

/// The stage after the backup the stage asked for was written (`ok`) or not.
pub open spec fn spec_after_backup(count: usize, stage: Stage, ok: bool) -> Stage {
    match stage {
        Stage::Backup(i) => if !ok {
            Stage::Stopped(StageStop::BackupFailed(i))
        } else if i + 1 < count {
            Stage::Backup((i + 1) as usize)
        } else {
            Stage::Recheck(0)
        },
        _ => stage,
    }
}

/// The stage after the file the stage names was read again (`None`: it
/// could not be read): only a file that still holds its original lets the
/// migration go on, and replacing starts once every file was checked.
pub open spec fn spec_after_recheck(files: Seq<MigrationFile>, stage: Stage, read: Option<Seq<u8>>) -> Stage {
    match stage {
        Stage::Recheck(i) => if read != Some(files[i as int].original@) {
            Stage::Stopped(StageStop::Changed(i))
        } else if i + 1 < files.len() {
            Stage::Recheck((i + 1) as usize)
        } else {
            Stage::Replace(Phase::Check(0))
        },
        _ => stage,
    }
}

/// A stage whose file indices name files of a list of `count`.
pub open spec fn stage_valid(stage: Stage, count: int) -> bool {
    match stage {
        Stage::Backup(i) | Stage::Recheck(i) => i < count,
        Stage::Replace(p) => crate::migration::phase_valid(p, count),
        Stage::Stopped(StageStop::BackupFailed(i)) | Stage::Stopped(StageStop::Changed(i)) => i
            < count,
    }
}

/// The stage a migration of `count` files starts in (see [`spec_begin`]).
pub fn begin(count: usize) -> (r: Stage)
    ensures
        r == spec_begin(count),
        stage_valid(r, count as int),
{
    if count == 0 {
        Stage::Replace(Phase::Done)
    } else {
        Stage::Backup(0)
    }
}

/// The stage after a backup (see [`spec_after_backup`]).
pub fn after_backup(count: usize, stage: Stage, ok: bool) -> (r: Stage)
    requires
        stage_valid(stage, count as int),
    ensures
        r == spec_after_backup(count, stage, ok),
        stage_valid(r, count as int),
{
    match stage {
        Stage::Backup(i) => if !ok {
            Stage::Stopped(StageStop::BackupFailed(i))
        } else if i + 1 < count {
            Stage::Backup(i + 1)
        } else {
            Stage::Recheck(0)
        },
        _ => stage,
    }
}

/// The stage after a file was read again (see [`spec_after_recheck`]).
pub fn after_recheck(files: &[MigrationFile], stage: Stage, read: Option<&[u8]>) -> (r: Stage)
    requires
        stage_valid(stage, files@.len() as int),
    ensures
        r == spec_after_recheck(files@, stage, crate::migration::read_view(read)),
        stage_valid(r, files@.len() as int),
{
    match stage {
        Stage::Recheck(i) => {
            let same = match read {
                Some(bytes) => crate::migration::same_bytes(bytes, files[i].original.as_slice()),
                None => false,
            };
            if !same {
                Stage::Stopped(StageStop::Changed(i))
            } else if i + 1 < files.len() {
                Stage::Recheck(i + 1)
            } else {
                Stage::Replace(start(files.len()))
            }
        },
        _ => stage,
    }
}

/// Nothing is replaced before every original is backed up and every file
/// was read again holding its original: the replacement starts only from a
/// check of the last file that found it unchanged, checks start only after
/// the backup of the last file was written, and a failed backup or a changed
/// file stops the migration before any replacement.
pub proof fn law_backup_and_recheck_come_first(
    files: Seq<MigrationFile>,
    stage: Stage,
    ok: bool,
    read: Option<Seq<u8>>,
)
    requires
        stage_valid(stage, files.len() as int),
        !(stage is Replace),
        files.len() <= usize::MAX,
    ensures
        spec_after_recheck(files, stage, read) is Replace ==> stage == Stage::Recheck(
            (files.len() - 1) as usize,
        ) && read == Some(files[files.len() - 1].original@),
        spec_after_backup(files.len() as usize, stage, ok) is Replace ==> false,
        stage is Backup && spec_after_backup(files.len() as usize, stage, ok) == Stage::Recheck(0)
            ==> stage
            == Stage::Backup((files.len() - 1) as usize) && ok,
        spec_after_recheck(files, stage, read) matches Stage::Recheck(j) ==> (j > 0 && stage
            == Stage::Recheck((j - 1) as usize) && read == Some(files[j - 1].original@)),
        spec_after_backup(files.len() as usize, stage, ok) matches Stage::Backup(j) ==> (j > 0
            && stage == Stage::Backup((j - 1) as usize) && ok),
{
}

/// How a migration starts once its plan is known: a refused or empty plan
/// starts nothing, so nothing is backed up or replaced; any other starts by
/// backing up the first planned file.
pub open spec fn spec_migration_start(
    plan: Result<Seq<(Seq<char>, Seq<u8>, Seq<char>, Seq<Seq<char>>)>, PlanError>,
) -> Option<Stage> {
    match plan {
        Err(_) => None,
        Ok(files) => if files.len() == 0 {
            None
        } else {
            Some(Stage::Backup(0))
        },
    }
}

/// How a migration starts (see [`spec_migration_start`]).
pub fn migration_start(plan: &Result<Vec<PlannedFile>, PlanError>) -> (r: Option<Stage>)
    ensures
        r == spec_migration_start(plan_view(*plan)),
        r matches Some(stage) ==> plan matches Ok(files) && stage == spec_begin(files@.len() as usize)
            && stage_valid(stage, files@.len() as int),
{
    match plan {
        Err(_) => None,
        Ok(files) => if files.len() == 0 {
            None
        } else {
            Some(begin(files.len()))
        },
    }
}

/// The whole upgrade is validated before anything is written: a single
/// preset file that cannot be migrated (not UTF-8, not a preset, an invalid
/// name, invalid or unknown tags) refuses the whole plan, and a refused plan
/// starts no backup and no replacement.
pub proof fn law_refused_upgrade_writes_nothing(files: Seq<PresetFile>, groups: Seq<TagGroup>, k: int)
    requires
        0 <= k < files.len() <= usize::MAX,
        file_plan(files[k], k as usize, groups) is Err,
    ensures
        spec_plan(files, groups) is Err,
        spec_migration_start(spec_plan(files, groups)) is None,
    decreases files.len(),
{
    if k < files.len() - 1 {
        assert(files.drop_last()[k] == files[k]);
        law_refused_upgrade_writes_nothing(files.drop_last(), groups, k);
    }
}

} // verus!
