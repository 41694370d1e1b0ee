use skills::migration::{
    after_read, after_write, report, same_bytes, start, MigrationFile, Phase, Unrestored,
};
use skills::legacy::{
    after_backup, after_recheck, begin, is_valid_key, migration_start, plan_legacy_migration, preset_paths,
    LegacyPreset, LegacyTags, PlanError, PresetFile, Stage, StageStop, TagGroup,
};
use std::collections::HashMap;

fn files() -> Vec<MigrationFile> {
    ["one", "two", "three"]
        .into_iter()
        .map(|name| MigrationFile {
            path: format!("{name}.toml"),
            original: format!("original {name}").into_bytes(),
            updated: format!("updated {name}").into_bytes(),
            name: name.into(),
        })
        .collect()
}

/// Runs the replacement over an in-memory disk. `write` may change the disk
/// and decides whether the write succeeds.
fn run(
    files: &[MigrationFile],
    disk: &mut HashMap<String, Vec<u8>>,
    mut write: impl FnMut(&mut HashMap<String, Vec<u8>>, &str, &[u8]) -> bool,
) -> (Phase, Vec<Unrestored>) {
    let mut phase = start(files.len());
    let mut unrestored = Vec::new();
    loop {
        let (next, note) = match phase {
            Phase::Check(i) => {
                let current = disk.get(&files[i].path).cloned();
                after_read(files, phase, current.as_deref())
            }
            Phase::Inspect { file, .. } => {
                let current = disk.get(&files[file].path).cloned();
                after_read(files, phase, current.as_deref())
            }
            Phase::Replace(i) => {
                let ok = write(disk, &files[i].path, &files[i].updated);
                after_write(files.len(), phase, ok)
            }
            Phase::Restore { file, .. } => {
                let ok = write(disk, &files[file].path, &files[file].original);
                after_write(files.len(), phase, ok)
            }
            Phase::Done | Phase::Failed { .. } => return (phase, unrestored),
        };
        if let Some(note) = note {
            unrestored.push(note);
        }
        phase = next;
    }
}

fn disk_of(files: &[MigrationFile]) -> HashMap<String, Vec<u8>> {
    files.iter().map(|f| (f.path.clone(), f.original.clone())).collect()
}

#[test]
fn all_files_are_replaced_when_nothing_fails() {
    let files = files();
    let mut disk = disk_of(&files);
    let (phase, unrestored) = run(&files, &mut disk, |disk, path, bytes| {
        disk.insert(path.to_string(), bytes.to_vec());
        true
    });
    assert_eq!(phase, Phase::Done);
    assert!(unrestored.is_empty());
    for file in &files {
        assert_eq!(disk[&file.path], file.updated);
    }
    let report = report("backups/presets".into(), &files);
    assert_eq!(report.migrated_names, vec!["one", "two", "three"]);
    assert_eq!(start(0), Phase::Done);
}

#[test]
fn later_files_are_rechecked_and_external_edits_preserved() {
    let files = files();
    let mut disk = disk_of(&files);
    let mut writes = 0;
    let (phase, _) = run(&files, &mut disk, |disk, path, bytes| {
        disk.insert(path.to_string(), bytes.to_vec());
        writes += 1;
        if writes == 1 {
            disk.insert("two.toml".into(), b"external edit".to_vec());
        }
        true
    });
    assert_eq!(phase, Phase::Failed { failed: 1 });
    assert_eq!(disk["one.toml"], files[0].original);
    assert_eq!(disk["two.toml"], b"external edit");
    assert_eq!(disk["three.toml"], files[2].original);
}

#[test]
fn rollback_keeps_a_file_edited_after_migration() {
    let files = files();
    let mut disk = disk_of(&files);
    let mut writes = 0;
    let (phase, unrestored) = run(&files, &mut disk, |disk, path, bytes| {
        writes += 1;
        if writes == 2 {
            disk.insert("one.toml".into(), b"new user contents".to_vec());
            return false;
        }
        disk.insert(path.to_string(), bytes.to_vec());
        true
    });
    assert_eq!(phase, Phase::Failed { failed: 1 });
    assert_eq!(unrestored, vec![Unrestored::ChangedAgain(0)]);
    assert_eq!(disk["one.toml"], b"new user contents");
    assert_eq!(disk["two.toml"], files[1].original);
}

#[test]
fn write_failure_rolls_back_every_replaced_file() {
    let files = files();
    let mut disk = disk_of(&files);
    let mut writes = 0;
    let (phase, unrestored) = run(&files, &mut disk, |disk, path, bytes| {
        writes += 1;
        if writes == 3 {
            return false;
        }
        disk.insert(path.to_string(), bytes.to_vec());
        true
    });
    assert_eq!(phase, Phase::Failed { failed: 2 });
    assert!(unrestored.is_empty());
    for file in &files {
        assert_eq!(disk[&file.path], file.original);
    }
}

#[test]
fn failed_restores_are_reported() {
    let files = files();
    let mut disk = disk_of(&files);
    let mut writes = 0;
    let (phase, unrestored) = run(&files, &mut disk, |disk, path, bytes| {
        writes += 1;
        if writes >= 3 {
            return false;
        }
        disk.insert(path.to_string(), bytes.to_vec());
        true
    });
    assert_eq!(phase, Phase::Failed { failed: 2 });
    assert_eq!(unrestored, vec![Unrestored::WriteFailed(1), Unrestored::WriteFailed(0)]);
    assert!(same_bytes(b"abc", b"abc"));
    assert!(!same_bytes(b"abc", b"abd"));
}

fn preset_file(path: &str, name: &str, skills: &[&str], tags: LegacyTags) -> PresetFile {
    PresetFile {
        path: path.into(),
        original: format!("name = {name:?}").into_bytes(),
        parsed: Some(LegacyPreset {
            name: name.into(),
            skills: skills.iter().map(|s| s.to_string()).collect(),
            tags,
        }),
    }
}

fn tag_groups() -> Vec<TagGroup> {
    vec![TagGroup { name: "office".into(), keys: vec!["printer".into(), "document".into()] }]
}

#[test]
fn legacy_tags_become_fixed_members_in_path_order() {
    let files = vec![
        preset_file("/p/a.toml", "plain", &["x"], LegacyTags::Absent),
        preset_file("/p/b.toml", "office", &["document", "mail"], LegacyTags::Listed(vec!["office".into()])),
    ];
    let plan = plan_legacy_migration(&files, &tag_groups()).unwrap();
    assert_eq!(plan.len(), 1);
    assert_eq!(plan[0].path, "/p/b.toml");
    assert_eq!(plan[0].name, "office");
    assert_eq!(plan[0].members, vec!["document", "mail", "printer"]);
    assert_eq!(plan[0].original, files[1].original);
}

#[test]
fn any_invalid_preset_refuses_the_whole_plan() {
    let good = preset_file("/p/a.toml", "office", &[], LegacyTags::Listed(vec!["office".into()]));
    let mut broken = preset_file("/p/b.toml", "x", &[], LegacyTags::Absent);
    broken.original = vec![0xff, 0xfe];
    assert_eq!(plan_legacy_migration(&[good.clone(), broken], &tag_groups()).unwrap_err(), PlanError::NotText(1));
    let not_preset = PresetFile { path: "/p/c.toml".into(), original: b"[[".to_vec(), parsed: None };
    assert_eq!(plan_legacy_migration(&[good.clone(), not_preset], &tag_groups()).unwrap_err(), PlanError::NotPreset(1));
    let bad_name = preset_file("/p/d.toml", "a/b", &[], LegacyTags::Listed(vec![]));
    assert_eq!(plan_legacy_migration(&[bad_name], &tag_groups()).unwrap_err(), PlanError::InvalidName(0));
    let bad_tags = preset_file("/p/e.toml", "ok", &[], LegacyTags::Invalid);
    assert_eq!(plan_legacy_migration(&[bad_tags], &tag_groups()).unwrap_err(), PlanError::InvalidTags(0));
    let unknown = preset_file("/p/f.toml", "ok", &[], LegacyTags::Listed(vec!["missing".into()]));
    assert_eq!(plan_legacy_migration(&[good, unknown], &tag_groups()).unwrap_err(), PlanError::UnknownTag(1));
    assert!(is_valid_key("office") && !is_valid_key("..") && !is_valid_key("") && !is_valid_key("a:b"));
}

#[test]
fn preset_files_are_the_toml_files_sorted() {
    let entries: Vec<String> = ["/p/b.toml", "/p/a.toml", "/p/.toml", "/p/c.txt", "/p/d.toml.bak"]
        .iter()
        .map(|s| s.to_string())
        .collect();
    assert_eq!(preset_paths(&entries), vec!["/p/a.toml", "/p/b.toml"]);
}

#[test]
fn backups_and_rechecks_come_before_any_replacement() {
    let changes = files();
    let mut stage = begin(changes.len());
    assert_eq!(stage, Stage::Backup(0));
    stage = after_backup(changes.len(), stage, true);
    assert_eq!(stage, Stage::Backup(1));
    assert_eq!(after_backup(changes.len(), stage, false), Stage::Stopped(StageStop::BackupFailed(1)));
    stage = after_backup(changes.len(), after_backup(changes.len(), stage, true), true);
    assert_eq!(stage, Stage::Recheck(0));
    assert_eq!(after_recheck(&changes, stage, Some(b"external edit")), Stage::Stopped(StageStop::Changed(0)));
    let mut stage = stage;
    for i in 0..changes.len() {
        stage = after_recheck(&changes, stage, Some(&changes[i].original));
    }
    assert_eq!(stage, Stage::Replace(Phase::Check(0)));
    assert_eq!(begin(0), Stage::Replace(Phase::Done));
}

#[test]
fn a_refused_plan_starts_no_backup() {
    let good = preset_file("/p/a.toml", "office", &[], LegacyTags::Listed(vec!["office".into()]));
    let mut broken = preset_file("/p/b.toml", "x", &[], LegacyTags::Absent);
    broken.original = vec![0xff, 0xfe];
    let refused = plan_legacy_migration(&[good.clone(), broken], &tag_groups());
    assert_eq!(migration_start(&refused), None);
    let planned = plan_legacy_migration(&[good], &tag_groups());
    assert_eq!(migration_start(&planned), Some(Stage::Backup(0)));
    let plain = preset_file("/p/c.toml", "plain", &["x"], LegacyTags::Absent);
    assert_eq!(migration_start(&plan_legacy_migration(&[plain], &tag_groups())), None);
}

#[test]
fn failure_messages_name_the_backup_and_every_unrestored_file() {
    assert_eq!(
        skills::migration::failure_message("/b/presets", &[]),
        "preset migration failed; originals backed up in /b/presets"
    );
    let notes = vec![
        skills::migration::changed_again_note("/p/a.toml"),
        skills::migration::restore_failed_note("/p/b.toml", "denied"),
    ];
    assert_eq!(
        skills::migration::failure_message("/b/presets", &notes),
        "preset migration failed; originals backed up in /b/presets; /p/a.toml changed again and was left untouched; /p/b.toml: denied"
    );
}
