//! Replacing preset definitions during the fixed-member migration, with a
//! rollback that never overwrites an edit made by someone else.
//!
//! Reading and writing files is left to the caller: the decisions are a
//! state machine. The caller performs what the current [`Phase`] asks for
//! and reports what happened through [`after_read`] or [`after_write`].
use crate::install::string_views;
use crate::text::{chars_of, concat, join, join_from, string_of, views};
use vstd::prelude::*;

verus! {

/// What the migration did: where the originals are backed up, and which
/// presets were migrated, in order.
#[derive(Debug, Clone)]
pub struct MigrationReport {
    pub backup_dir: String,
    pub migrated_names: Vec<String>,
}

/// One definition to replace: its contents as read when the migration was
/// planned, the contents that replace them, and the preset's name.
#[derive(Debug, Clone)]
pub struct MigrationFile {
    pub path: String,
    pub original: Vec<u8>,
    pub updated: Vec<u8>,
    pub name: String,
}

/// Where the replacement stands, and what the caller does next.
#[derive(Debug, Clone, Copy, PartialEq, Eq, Structural)]
pub enum Phase {
    /// Read file `i` to check that nobody changed it since it was planned.
    Check(usize),
    /// File `i` is unchanged: write its update.
    Replace(usize),
    /// File `failed` could not be replaced: read earlier file `file` to
    /// decide whether to put its original back.
    Inspect { failed: usize, file: usize },
    /// Earlier file `file` still holds its update: write its original back.
    Restore { failed: usize, file: usize },
    /// Every file was replaced.
    Done,
    /// File `failed` could not be replaced; the rollback is over.
    Failed { failed: usize },
}

/// An earlier file the rollback could not put back.
#[derive(Debug, Clone, Copy, PartialEq, Eq, Structural)]
pub enum Unrestored {
    /// Someone changed the file again; it was left untouched.
    ChangedAgain(usize),
    /// Writing the original back failed.
    WriteFailed(usize),
}

/// The phase a replacement of `count` files starts in.
pub fn start(count: usize) -> (r: Phase)
    ensures
        r == (if count == 0 {
            Phase::Done
        } else {
            Phase::Check(0)
        }),
{
    if count == 0 {
        Phase::Done
    } else {
        Phase::Check(0)
    }
}

/// After file `failed` could not be replaced: inspect the file before it, or
/// stop when there is none.
pub open spec fn spec_roll_back(failed: usize, before: usize) -> Phase {
    if before == 0 {
        Phase::Failed { failed }
    } else {
        Phase::Inspect { failed, file: (before - 1) as usize }
    }
}

fn roll_back(failed: usize, before: usize) -> (r: Phase)
    ensures
        r == spec_roll_back(failed, before),
{
    if before == 0 {
        Phase::Failed { failed }
    } else {
        Phase::Inspect { failed, file: before - 1 }
    }
}

/// A phase whose file indices name files of a list of `count`.
pub open spec fn phase_valid(phase: Phase, count: int) -> bool {
    match phase {
        Phase::Check(i) | Phase::Replace(i) => i < count,
        Phase::Inspect { failed, file } | Phase::Restore { failed, file } => file < failed
            < count,
        Phase::Done => true,
        Phase::Failed { failed } => failed < count,
    }
}

/// The bytes read, as a sequence.
pub open spec fn read_view(current: Option<&[u8]>) -> Option<Seq<u8>> {
    match current {
        Some(c) => Some(c@),
        None => None,
    }
}

/// The next phase after the file the phase names was read (`None`: it
/// could not be read). A file to replace must still hold its original, else
/// the rollback starts. While rolling back, a file that holds its update is
/// restored, one that holds its original is left as it is, and any other
/// one is left untouched and reported.
pub open spec fn spec_after_read(files: Seq<MigrationFile>, phase: Phase, current: Option<Seq<u8>>) -> (
    Phase,
    Option<Unrestored>,
) {
    match phase {
        Phase::Check(i) => if current == Some(files[i as int].original@) {
            (Phase::Replace(i), None)
        } else {
            (spec_roll_back(i, i), None)
        },
        Phase::Inspect { failed, file } => if current == Some(files[file as int].updated@) {
            (Phase::Restore { failed, file }, None)
        } else if current == Some(files[file as int].original@) {
            (spec_roll_back(failed, file), None)
        } else {
            (spec_roll_back(failed, file), Some(Unrestored::ChangedAgain(file)))
        },
        _ => (phase, None),
    }
}

/// The next phase after the write the phase asked for succeeded (`ok`) or
/// failed. A replaced file moves on to the next one; a failed replacement
/// starts the rollback; a restore, whatever its outcome, moves on to the
/// file before, reporting a failed one.
pub open spec fn spec_after_write(count: int, phase: Phase, ok: bool) -> (Phase, Option<Unrestored>) {
    match phase {
        Phase::Replace(i) => if ok {
            if i + 1 == count {
                (Phase::Done, None)
            } else {
                (Phase::Check((i + 1) as usize), None)
            }
        } else {
            (spec_roll_back(i, i), None)
        },
        Phase::Restore { failed, file } => if ok {
            (spec_roll_back(failed, file), None)
        } else {
            (spec_roll_back(failed, file), Some(Unrestored::WriteFailed(file)))
        },
        _ => (phase, None),
    }
}

/// Whether two byte strings are equal.
pub fn same_bytes(a: &[u8], b: &[u8]) -> (r: bool)
    ensures
        r == (a@ == b@),
{
    if a.len() != b.len() {
        return false;
    }
    let mut i: usize = 0;
    while i < a.len()
        invariant
            a@.len() == b@.len(),
            i <= a@.len(),
            forall|j: int| 0 <= j < i ==> a@[j] == b@[j],
        decreases a@.len() - i,
    {
        if a[i] != b[i] {
            return false;
        }
        i = i + 1;
    }
    assert(a@ =~= b@);
    true
}

fn read_equals(current: Option<&[u8]>, expected: &Vec<u8>) -> (r: bool)
    ensures
        r == (read_view(current) == Some(expected@)),
{
    match current {
        Some(c) => same_bytes(c, expected.as_slice()),
        None => false,
    }
}

/// The next phase after reading the file the phase names (see
/// [`spec_after_read`]).
pub fn after_read(files: &[MigrationFile], phase: Phase, current: Option<&[u8]>) -> (r: (
    Phase,
    Option<Unrestored>,
))
    requires
        phase_valid(phase, files@.len() as int),
    ensures
        r == spec_after_read(files@, phase, read_view(current)),
        phase_valid(r.0, files@.len() as int),
{
    match phase {
        Phase::Check(i) => if read_equals(current, &files[i].original) {
            (Phase::Replace(i), None)
        } else {
            (roll_back(i, i), None)
        },
        Phase::Inspect { failed, file } => if read_equals(current, &files[file].updated) {
            (Phase::Restore { failed, file }, None)
        } else if read_equals(current, &files[file].original) {
            (roll_back(failed, file), None)
        } else {
            (roll_back(failed, file), Some(Unrestored::ChangedAgain(file)))
        },
        _ => (phase, None),
    }
}

/// The next phase after the write the phase asked for (see
/// [`spec_after_write`]).
pub fn after_write(count: usize, phase: Phase, ok: bool) -> (r: (Phase, Option<Unrestored>))
    requires
        phase_valid(phase, count as int),
    ensures
        r == spec_after_write(count as int, phase, ok),
        phase_valid(r.0, count as int),
{
    match phase {
        Phase::Replace(i) => if ok {
            if i + 1 == count {
                (Phase::Done, None)
            } else {
                (Phase::Check(i + 1), None)
            }
        } else {
            (roll_back(i, i), None)
        },
        Phase::Restore { failed, file } => if ok {
            (roll_back(failed, file), None)
        } else {
            (roll_back(failed, file), Some(Unrestored::WriteFailed(file)))
        },
        _ => (phase, None),
    }
}

/// The report of a migration whose files were all replaced.
pub fn report(backup_dir: String, files: &[MigrationFile]) -> (r: MigrationReport)
    ensures
        r.backup_dir == backup_dir,
        r.migrated_names@.len() == files@.len(),
        forall|i: int|
            0 <= i < files@.len() ==> #[trigger] r.migrated_names@[i]@ == files@[i].name@,
{
    let mut names: Vec<String> = Vec::new();
    let mut i: usize = 0;
    while i < files.len()
        invariant
            i <= files@.len(),
            names@.len() == i,
            forall|j: int| 0 <= j < i ==> #[trigger] names@[j]@ == files@[j].name@,
        decreases files@.len() - i,
    {
        names.push(files[i].name.clone());
        i = i + 1;
    }
    MigrationReport { backup_dir, migrated_names: names }
}

/// The rollback never overwrites an edit made by someone else: an original
/// is written back only to an earlier file that was just read holding
/// exactly its update, and only while rolling back a failure at a later file.
pub proof fn law_restore_only_own_updates(
    files: Seq<MigrationFile>,
    phase: Phase,
    current: Option<Seq<u8>>,
)
    requires
        phase_valid(phase, files.len() as int),
        phase is Check || phase is Inspect,
    ensures
        spec_after_read(files, phase, current).0 matches Phase::Restore { failed, file } ==> (
        phase == Phase::Inspect { failed, file } && current == Some(files[file as int].updated@)
            && file < failed),
{
}

/// A file is replaced only after it was read holding exactly its original.
/// (Reads are reported in the phases that ask for one.)
pub proof fn law_replace_only_unchanged(files: Seq<MigrationFile>, phase: Phase, current: Option<Seq<u8>>)
    requires
        phase_valid(phase, files.len() as int),
        phase is Check || phase is Inspect,
    ensures
        spec_after_read(files, phase, current).0 matches Phase::Replace(i) ==> (phase
            == Phase::Check(i) && current == Some(files[i as int].original@)),
{
}

/// The rollback visits the earlier files once each, latest first: from a
/// failure at `i` it inspects `i - 1`, and every rollback step moves to the
/// file before or ends.
pub proof fn law_rollback_walks_back(count: int, phase: Phase, ok: bool)
    requires
        phase_valid(phase, count),
    ensures
        phase is Replace && !ok ==> spec_after_write(count, phase, ok).0 == spec_roll_back(
            phase->Replace_0,
            phase->Replace_0,
        ),
        phase matches Phase::Restore { failed, file } ==> spec_after_write(count, phase, ok).0
            == spec_roll_back(failed, file),
{
}

/// The phase after the caller did what `phase` asks for: read the file,
/// with `read` its contents, or write it, with `ok` its success.
pub open spec fn spec_advance(
    files: Seq<MigrationFile>,
    phase: Phase,
    read: Option<Seq<u8>>,
    ok: bool,
) -> Phase {
    match phase {
        Phase::Check(_) | Phase::Inspect { .. } => spec_after_read(files, phase, read).0,
        _ => spec_after_write(files.len() as int, phase, ok).0,
    }
}

/// The phases of a whole run over `files`, from [`start`], as the caller
/// reports each read and write in turn.
pub open spec fn run_phases(files: Seq<MigrationFile>, reports: Seq<(Option<Seq<u8>>, bool)>) -> Seq<
    Phase,
>
    decreases reports.len(),
{
    if reports.len() == 0 {
        seq![if files.len() == 0 { Phase::Done } else { Phase::Check(0) }]
    } else {
        let before = run_phases(files, reports.drop_last());
        before.push(spec_advance(files, before.last(), reports.last().0, reports.last().1))
    }
}

/// The failure a phase is rolling back, if it is rolling one back.
pub open spec fn rolling_back(phase: Phase) -> Option<usize> {
    match phase {
        Phase::Inspect { failed, .. } | Phase::Restore { failed, .. } | Phase::Failed {
            failed,
        } => Some(failed),
        _ => None,
    }
}

/// The earlier file a rollback phase is at (-1 once it is over).
pub open spec fn rollback_file(phase: Phase) -> int {
    match phase {
        Phase::Inspect { file, .. } | Phase::Restore { file, .. } => file as int,
        _ => -1,
    }
}

/// Every file before `i` was written with its update before step `m`.
pub open spec fn replaced_before(t: Seq<Phase>, m: int, i: int) -> bool {
    forall|j: usize| j < i ==> #[trigger] t.take(m).contains(Phase::Replace(j))
}

/// Every file after `from` and before `failed` was inspected, to restore
/// it, before step `m`.
pub open spec fn inspected_between(t: Seq<Phase>, m: int, failed: usize, from: int) -> bool {
    forall|f: usize|
        from < f < failed ==> #[trigger] t.take(m).contains(Phase::Inspect { failed, file: f })
}

/// What holds at step `m` of a run over `count` files.
pub open spec fn run_step_facts(count: int, t: Seq<Phase>, m: int) -> bool {
    let p = t[m];
    &&& phase_valid(p, count)
    &&& (p matches Phase::Check(i) ==> replaced_before(t, m, i as int))
    &&& (p matches Phase::Replace(i) ==> replaced_before(t, m, i as int) && t.take(m).contains(
        Phase::Check(i),
    ))
    &&& (rolling_back(p) matches Some(i) ==> replaced_before(t, m, i as int)
        && inspected_between(t, m, i, rollback_file(p)))
    &&& (p matches Phase::Restore { failed, file } ==> t.take(m).contains(
        Phase::Inspect { failed, file },
    ))
}

proof fn lemma_take_contains(t: Seq<Phase>, a: int, b: int, x: Phase)
    requires
        0 <= a <= b <= t.len(),
        t.take(a).contains(x),
    ensures
        t.take(b).contains(x),
{
    let k = choose|k: int| 0 <= k < t.take(a).len() && t.take(a)[k] == x;
    assert(t.take(b)[k] == x);
}

/// Each step of a run keeps [`run_step_facts`], and a rollback, once
/// started, goes on rolling back the same failure.
proof fn lemma_run(files: Seq<MigrationFile>, reports: Seq<(Option<Seq<u8>>, bool)>)
    requires
        files.len() <= usize::MAX,
    ensures
        run_phases(files, reports).len() == reports.len() + 1,
        forall|m: int|
            0 <= m < run_phases(files, reports).len() ==> run_step_facts(
                files.len() as int,
                run_phases(files, reports),
                m,
            ),
        forall|m1: int, m2: int|
            0 <= m1 < m2 < run_phases(files, reports).len() && (rolling_back(
                #[trigger] run_phases(files, reports)[m1],
            ) is Some) ==> rolling_back(#[trigger] run_phases(files, reports)[m2])
                == rolling_back(run_phases(files, reports)[m1]),
    decreases reports.len(),
{
    let count = files.len() as int;
    let t2 = run_phases(files, reports);
    if reports.len() == 0 {
        assert(run_step_facts(count, t2, 0));
    } else {
        let t = run_phases(files, reports.drop_last());
        lemma_run(files, reports.drop_last());
        let n = t.len() as int;
        let last = t[n - 1];
        let q = spec_advance(files, last, reports.last().0, reports.last().1);
        assert(t2 == t.push(q));
        assert(t2.take(n) =~= t);
        assert forall|m: int| 0 <= m < n implies run_step_facts(count, t2, m) by {
            assert(t2.take(m) =~= t.take(m));
            assert(t2[m] == t[m]);
            assert(run_step_facts(count, t, m));
        }
        assert(run_step_facts(count, t, n - 1));
        assert(t.take(n) =~= t);
        assert(t.contains(last)) by {
            assert(t[n - 1] == last);
        }
        assert forall|x: Phase| t.take(n - 1).contains(x) implies #[trigger] t2.take(n).contains(
            x,
        ) by {
            lemma_take_contains(t, n - 1, n, x);
        }
        assert(t2[n] == q);
        assert(t2.take(n).contains(last)) by {
            assert(t2.take(n)[n - 1] == last);
        }
        match last {
            Phase::Check(i) => {
                if q matches Phase::Replace(_) {
                } else {
                    assert(q == spec_roll_back(i, i));
                }
            },
            Phase::Replace(i) => {
                if let Phase::Check(k) = q {
                    assert(k == i + 1);
                    assert forall|j: usize| j < k implies #[trigger] t2.take(n).contains(
                        Phase::Replace(j),
                    ) by {
                        if j < i {
                            assert(t.take(n - 1).contains(Phase::Replace(j)));
                        }
                    }
                } else if q matches Phase::Replace(_) {
                    assert(t.take(n - 1).contains(Phase::Check(i)));
                }
            },
            Phase::Inspect { failed, file } => {
                assert forall|f: usize| rollback_file(q) < f < failed implies #[trigger] t2.take(
                    n,
                ).contains(Phase::Inspect { failed, file: f }) by {
                    if f > file {
                        assert(t.take(n - 1).contains(Phase::Inspect { failed, file: f }));
                    }
                }
            },
            Phase::Restore { failed, file } => {
                assert(t.take(n - 1).contains(Phase::Inspect { failed, file }));
                assert forall|f: usize| rollback_file(q) < f < failed implies #[trigger] t2.take(
                    n,
                ).contains(Phase::Inspect { failed, file: f }) by {
                    if f > file {
                        assert(t.take(n - 1).contains(Phase::Inspect { failed, file: f }));
                    }
                }
            },
            _ => {},
        }
        assert(run_step_facts(count, t2, n));
        assert forall|m1: int, m2: int|
            0 <= m1 < m2 < t2.len() && (rolling_back(#[trigger] t2[m1]) is Some) implies rolling_back(
            #[trigger] t2[m2],
        ) == rolling_back(t2[m1]) by {
            if m2 == n {
                if m1 < n - 1 {
                    assert(rolling_back(t[n - 1]) == rolling_back(t[m1]));
                }
            } else {
                assert(t2[m1] == t[m1] && t2[m2] == t[m2]);
            }
        }
    }
}

/// A whole replacement run never overwrites what it cannot account for.
/// Files are written with their updates in order, each after it was read
/// unchanged; once the file at `failed` cannot be replaced, no file is
/// replaced any more, and the rollback walks back over every earlier file,
/// newest first, inspecting each before it could restore it, until it ends
/// in [`Phase::Failed`] with every file before `failed` replaced and then
/// inspected.
pub proof fn law_run_rolls_back_every_replaced_file(
    files: Seq<MigrationFile>,
    reports: Seq<(Option<Seq<u8>>, bool)>,
)
    requires
        files.len() <= usize::MAX,
    ensures
        ({
            let t = run_phases(files, reports);
            &&& forall|m: int|
                0 <= m < t.len() ==> #[trigger] phase_valid(t[m], files.len() as int)
            &&& forall|m: int|
                0 <= m < t.len() ==> (#[trigger] t[m] matches Phase::Replace(i) ==> replaced_before(
                    t,
                    m,
                    i as int,
                ) && t.take(m).contains(Phase::Check(i)))
            &&& forall|m1: int, m2: int|
                0 <= m1 < m2 < t.len() && (rolling_back(#[trigger] t[m1]) is Some) ==> rolling_back(
                    #[trigger] t[m2],
                ) == rolling_back(t[m1])
            &&& forall|m: int|
                0 <= m < t.len() ==> (#[trigger] t[m] matches Phase::Failed { failed }
                    ==> replaced_before(t, m, failed as int) && inspected_between(t, m, failed, -1))
            &&& forall|m: int|
                0 <= m < t.len() ==> (#[trigger] t[m] matches Phase::Restore { failed, file }
                    ==> file < failed && t.take(m).contains(Phase::Inspect { failed, file }))
        }),
{
    lemma_run(files, reports);
    let t = run_phases(files, reports);
    assert forall|m: int| 0 <= m < t.len() implies #[trigger] phase_valid(
        t[m],
        files.len() as int,
    ) by {
        assert(run_step_facts(files.len() as int, t, m));
    }
    assert forall|m: int| 0 <= m < t.len() implies (#[trigger] t[m] matches Phase::Replace(i)
        ==> replaced_before(t, m, i as int) && t.take(m).contains(Phase::Check(i))) by {
        assert(run_step_facts(files.len() as int, t, m));
    }
    assert forall|m: int| 0 <= m < t.len() implies (#[trigger] t[m] matches Phase::Failed {
        failed,
    } ==> replaced_before(t, m, failed as int) && inspected_between(t, m, failed, -1)) by {
        assert(run_step_facts(files.len() as int, t, m));
    }
    assert forall|m: int| 0 <= m < t.len() implies (#[trigger] t[m] matches Phase::Restore {
        failed,
        file,
    } ==> file < failed && t.take(m).contains(Phase::Inspect { failed, file })) by {
        assert(run_step_facts(files.len() as int, t, m));
    }
}

/// What a failed migration reports after the error: that it failed, where
/// the originals are backed up, then each file the rollback could not put
/// back, separated by `; `.
pub open spec fn spec_failure_message(backup_dir: Seq<char>, notes: Seq<Seq<char>>) -> Seq<char> {
    let head = "preset migration failed; originals backed up in "@ + backup_dir;
    if notes.len() == 0 {
        head
    } else {
        head + "; "@ + join(notes, "; "@)
    }
}

/// The report of a failed migration (see [`spec_failure_message`]).
pub fn failure_message(backup_dir: &str, notes: &[String]) -> (r: String)
    ensures
        r@ == spec_failure_message(backup_dir@, string_views(notes@)),
{
    let head = concat(chars_of("preset migration failed; originals backed up in ").as_slice(), chars_of(backup_dir).as_slice());
    if notes.len() == 0 {
        return string_of(head.as_slice());
    }
    let mut parts: Vec<Vec<char>> = Vec::new();
    let mut i: usize = 0;
    while i < notes.len()
        invariant
            i <= notes@.len(),
            views(parts@) == string_views(notes@).take(i as int),
        decreases notes@.len() - i,
    {
        let ghost before = parts@;
        let piece = chars_of(notes[i].as_str());
        parts.push(piece);
        assert(parts@ == before.push(piece));
        assert(views(parts@) =~= views(before).push(notes@[i as int]@));
        assert(views(parts@) =~= string_views(notes@).take(i + 1));
        i = i + 1;
    }
    assert(views(parts@).skip(0) =~= string_views(notes@));
    let joined = join_from(&parts, 0, chars_of("; ").as_slice());
    let with_sep = concat(head.as_slice(), chars_of("; ").as_slice());
    string_of(concat(with_sep.as_slice(), joined.as_slice()).as_slice())
}

/// The note for a file that changed again after it was replaced.
pub fn changed_again_note(path: &str) -> (r: String)
    ensures
        r@ == path@ + " changed again and was left untouched"@,
{
    string_of(concat(chars_of(path).as_slice(), chars_of(" changed again and was left untouched").as_slice()).as_slice())
}

/// The note for a file whose original could not be written back.
pub fn restore_failed_note(path: &str, error: &str) -> (r: String)
    ensures
        r@ == path@ + ": "@ + error@,
{
    let a = concat(chars_of(path).as_slice(), chars_of(": ").as_slice());
    string_of(concat(a.as_slice(), chars_of(error).as_slice()).as_slice())
}

} // verus!
