use skills::install::{default_name, fetch, set_source, FetchError, SetSourceError};
use skills::meta::{Source, SourceKind};
use skills::reference::{parse_ref, InstallRef, RefError};
use skills::source::{acquire, checkout_revision, fetch_archive, latest_revision, Acquired, Acquisition, RevisionLookup};
use skills::install::{adopt_plan, discover, install_key, install_plan, is_offered, AdoptError, AdoptPlan, InstallPlan};

#[test]
fn parses_shorthand() {
    let r = parse_ref("foo/bar/skills/baz", None, None, None).unwrap();
    assert_eq!(
        r,
        InstallRef::Git {
            url: "https://github.com/foo/bar".into(),
            branch: None,
            subpath: Some("skills/baz".into())
        }
    );
}

#[test]
fn parses_tree_url() {
    let r = parse_ref("https://github.com/foo/bar/tree/main/skills/baz", None, None, None).unwrap();
    assert_eq!(
        r,
        InstallRef::Git {
            url: "https://github.com/foo/bar".into(),
            branch: Some("main".into()),
            subpath: Some("skills/baz".into())
        }
    );
}

#[test]
fn parses_ssh_url() {
    let r = parse_ref("git@github.com:foo/bar.git", None, Some("x"), None).unwrap();
    assert_eq!(
        r,
        InstallRef::Git {
            url: "git@github.com:foo/bar.git".into(),
            branch: None,
            subpath: Some("x".into())
        }
    );
}

#[test]
fn archive_urls_keep_queries_and_github_paths() {
    for url in [
        "https://github.com/o/r/archive/refs/heads/main.zip?token=a@b",
        "https://host.test/bundle.tar.gz",
    ] {
        assert!(
            matches!(parse_ref(url, None, None, None).unwrap(), InstallRef::Archive { url: actual, .. } if actual == url)
        );
    }
    for url in [
        "https://host.test/download?id=a@b",
        "https://github.com/o/r/releases/download/v1/skills",
    ] {
        assert!(
            matches!(parse_ref(url, None, None, None).unwrap(), InstallRef::Url { url: actual, .. } if actual == url)
        );
    }
}

#[test]
fn archive_rejects_git_branch_and_unsafe_path() {
    assert!(parse_ref("https://host.test/a.zip", Some("main"), None, None).is_err());
    assert!(parse_ref("https://host.test/a.zip", None, Some("../elsewhere"), None).is_err());
}

#[test]
fn github_repository_and_tree_paths_take_precedence_over_filename_suffixes() {
    assert!(matches!(
        parse_ref("https://github.com/acme/skills.zip", None, None, None).unwrap(),
        InstallRef::Git { .. }
    ));
    assert!(
        matches!(parse_ref("https://github.com/acme/skills/tree/main/tools.zip", None, None, None).unwrap(), InstallRef::Git { subpath: Some(path), .. } if path == "tools.zip")
    );
}

#[test]
fn an_existing_path_is_a_local_reference() {
    let r = parse_ref("foo/bar", None, None, Some("/home/me/foo/bar")).unwrap();
    assert_eq!(r, InstallRef::Local("/home/me/foo/bar".into()));
    assert!(!r.is_remote());
    assert_eq!(r.url(), None);
}

#[test]
fn subpath_slashes_are_trimmed_and_dots_refused() {
    let r = parse_ref("foo/bar", None, Some("/skills/baz/"), None).unwrap();
    assert_eq!(r.subpath(), Some("skills/baz"));
    assert_eq!(
        parse_ref("foo/bar", None, Some("a/./b"), None),
        Err(RefError::InvalidSubpath)
    );
}

#[test]
fn unknown_schemes_and_words_are_refused() {
    assert_eq!(
        parse_ref("ftp://host.test/a.zip", None, None, None),
        Err(RefError::UnsupportedScheme)
    );
    assert_eq!(parse_ref("word", None, None, None), Err(RefError::Unparsable));
    assert_eq!(
        parse_ref("https://github.com/onlyowner", None, None, None),
        Err(RefError::GitHubUrl)
    );
}

#[test]
fn a_source_converts_back_to_its_reference() {
    let git = Source::Git {
        url: "https://github.com/o/r".into(),
        branch: Some("dev".into()),
        subpath: Some("skills/a".into()),
        revision: Some("abc".into()),
    };
    assert_eq!(
        InstallRef::from_source(&git),
        Ok(InstallRef::Git {
            url: "https://github.com/o/r".into(),
            branch: Some("dev".into()),
            subpath: Some("skills/a".into())
        })
    );
    let local = Source::Local { path: None };
    assert_eq!(InstallRef::from_source(&local), Err(RefError::LocalSource));
}

#[test]
fn url_acquisition_probes_then_follows_the_answer() {
    let r = parse_ref("https://host.test/repo", None, None, None).unwrap();
    assert_eq!(
        acquire(&r, &[]),
        Ok(Acquisition::Probe { url: "https://host.test/repo".into() })
    );
    assert_eq!(
        acquire(&r, &[true]),
        Ok(Acquisition::FetchGit { url: "https://host.test/repo".into(), branch: None })
    );
    assert_eq!(
        acquire(&r, &[false]),
        Ok(Acquisition::FetchArchive { url: "https://host.test/repo".into() })
    );
}

#[test]
fn inline_branch_is_probed_after_the_whole_url() {
    let r = InstallRef::Url { url: "https://host.test/repo@dev".into(), branch: None, subpath: None };
    assert_eq!(
        acquire(&r, &[false]),
        Ok(Acquisition::Probe { url: "https://host.test/repo".into() })
    );
    assert_eq!(
        acquire(&r, &[false, true]),
        Ok(Acquisition::FetchGit { url: "https://host.test/repo".into(), branch: Some("dev".into()) })
    );
}

#[test]
fn acquired_archives_record_their_content_hash() {
    let acquired = fetch_archive("https://host.test/a.zip", "sha256:00ff".into());
    assert_eq!(acquired.kind, SourceKind::Archive);
    assert_eq!(
        acquired.source(Some("skills/x")),
        Source::Archive {
            url: "https://host.test/a.zip".into(),
            subpath: Some("skills/x".into()),
            revision: Some("sha256:00ff".into())
        }
    );
}

#[test]
fn git_sources_ask_the_remote_for_revisions() {
    let git = Source::Git { url: "https://h/r".into(), branch: None, subpath: None, revision: None };
    assert_eq!(
        latest_revision(&git),
        Ok(RevisionLookup::GitRemote { url: "https://h/r".into(), branch: None })
    );
    let archive = Source::Archive { url: "https://h/a.zip".into(), subpath: None, revision: None };
    assert!(matches!(latest_revision(&archive), Ok(RevisionLookup::Acquire(InstallRef::Archive { .. }))));
    let reference = InstallRef::Git { url: "https://h/r".into(), branch: None, subpath: None };
    assert!(checkout_revision(&reference, true));
    assert!(!checkout_revision(&reference, false));
}

#[test]
fn fetch_offers_choices_when_a_tree_holds_several_skills() {
    let r = InstallRef::Git { url: "https://h/r".into(), branch: None, subpath: Some("skills".into()) };
    match fetch(&r, false, &["a".to_string(), "b".to_string()]) {
        Err(FetchError::NotOneSkill(n)) => {
            assert_eq!(n.choices, vec!["skills/a".to_string(), "skills/b".to_string()])
        }
        other => panic!("unexpected {other:?}"),
    }
    assert!(matches!(fetch(&r, false, &[]), Err(FetchError::NoSkill)));
    assert!(fetch(&r, true, &[]).is_ok());
}

#[test]
fn default_names_come_from_the_path_or_the_document() {
    let local = InstallRef::Local("/tmp/skills/hello".into());
    assert_eq!(default_name(&local, None), "hello");
    let git = InstallRef::Git { url: "https://h/r".into(), branch: None, subpath: None };
    assert_eq!(default_name(&git, Some("declared")), "declared");
    assert_eq!(default_name(&git, None), "");
}

#[test]
fn only_remote_sources_are_recorded() {
    let local = InstallRef::Local("/tmp/x".into());
    assert!(matches!(set_source(&local, None), Err(SetSourceError::NotRemote)));
    let git = InstallRef::Git { url: "https://h/r".into(), branch: Some("b".into()), subpath: None };
    assert_eq!(
        set_source(&git, None).unwrap(),
        Source::Git { url: "https://h/r".into(), branch: Some("b".into()), subpath: None, revision: None }
    );
    let url = InstallRef::Url { url: "https://h/r".into(), branch: None, subpath: None };
    let acquired = Acquired { url: "https://h/r".into(), kind: SourceKind::Git, branch: None, revision: "abc".into() };
    assert_eq!(
        set_source(&url, Some(&acquired)).unwrap(),
        Source::Git { url: "https://h/r".into(), branch: None, subpath: None, revision: None }
    );
}

#[test]
fn discovery_offers_visible_directories_sorted() {
    let found: Vec<String> = ["skills/b", "", ".hidden/a", "skills/.git/x", "a"].iter().map(|s| s.to_string()).collect();
    assert_eq!(discover(&found), vec!["a".to_string(), "skills/b".to_string()]);
    assert!(is_offered("x/y"));
    assert!(!is_offered("x/.y"));
    assert_eq!(adopt_plan(true, false, false, false, false), Err(AdoptError::RenameInRoot));
    assert_eq!(adopt_plan(true, true, true, false, false), Err(AdoptError::AlreadyManaged));
    assert_eq!(adopt_plan(true, true, false, true, false), Ok(AdoptPlan::RecordInPlace));
    assert_eq!(adopt_plan(false, true, false, true, false), Err(AdoptError::Exists));
    assert_eq!(adopt_plan(false, false, false, false, true), Ok(AdoptPlan::Move { link_back: true }));
    let git = InstallRef::Git { url: "https://h/r".into(), branch: None, subpath: None };
    let source = Source::Git { url: "https://h/r".into(), branch: None, subpath: None, revision: Some("a".into()) };
    assert_eq!(install_plan(&git, &source, false), Some(InstallPlan { via_staging: true, record_baseline: true }));
    assert_eq!(install_plan(&git, &source, true), None);
    let local = InstallRef::Local("/x".into());
    assert_eq!(
        install_plan(&local, &Source::Local { path: None }, false),
        Some(InstallPlan { via_staging: false, record_baseline: false })
    );
    assert_eq!(install_key(Some("given"), "default".into()), "given");
    assert_eq!(install_key(None, "default".into()), "default");
}

#[test]
fn ref_error_messages_name_the_refusal() {
    assert_eq!(RefError::GitHubUrl.message(), "cannot parse GitHub URL");
    assert_eq!(RefError::LocalSource.message(), "local skills have no remote source");
    assert_eq!(
        RefError::InvalidSubpath.message(),
        "invalid subpath: it must stay inside the source tree"
    );
}

#[test]
fn acquiring_a_local_directory_needs_no_provider() {
    let local = InstallRef::Local("/tmp/skills/hello".into());
    let result = acquire(&local, &[]);
    assert_eq!(result, Err(RefError::LocalDirectory));
    assert_eq!(
        RefError::LocalDirectory.message(),
        "local directories do not need a remote source provider"
    );
}

#[test]
fn refusals_of_form_name_the_reference() {
    assert_eq!(
        RefError::GitHubUrl.describe("https://github.com/owner"),
        "cannot parse GitHub URL: https://github.com/owner"
    );
    assert_eq!(
        RefError::Unparsable.describe("nothing"),
        "cannot parse reference: nothing (not a path, URL, or owner/repo)"
    );
    assert_eq!(RefError::UnsupportedScheme.describe("ftp://x/y"), "unsupported source URL scheme");
}

#[test]
fn fetch_refusals_name_the_reference() {
    let local = InstallRef::Local("/tmp/x".into());
    assert_eq!(FetchError::MissingSkillFile.describe(&local), "/tmp/x has no SKILL.md");
    let remote = parse_ref("owner/repo/skills", None, None, None).unwrap();
    let url = remote.url().unwrap().to_string();
    assert_eq!(
        FetchError::NoSkill.describe(&remote),
        format!("no SKILL.md at skills in {url}")
    );
    let plain = parse_ref("owner/repo", None, None, None).unwrap();
    assert_eq!(
        FetchError::NoSkill.describe(&plain),
        format!("no SKILL.md at the source root in {}", plain.url().unwrap())
    );
    let several = FetchError::NotOneSkill(skills::install::NotOneSkill {
        choices: vec!["a".into(), "b".into(), "c".into()],
    });
    assert_eq!(several.describe(&plain), "holds 3 skills; pick one");
    assert_eq!(SetSourceError::NotRemote.message(), "Only repository upstream sources are recorded");
}

#[test]
fn steps_announce_their_progress_and_local_sources_use_the_home_directory() {
    let archive = skills::source::Acquisition::FetchArchive { url: "https://x/a.tar.gz".into() };
    assert_eq!(archive.progress(0), Some("Download: fetching and extracting archive…"));
    let probe = skills::source::Acquisition::Probe { url: "https://x/y".into() };
    assert_eq!(probe.progress(0), Some("Fetch: identifying URL source…"));
    assert_eq!(probe.progress(1), None);
    let git = skills::source::Acquisition::FetchGit { url: "https://x/y.git".into(), branch: None };
    assert_eq!(git.progress(0), None);
    assert_eq!(skills::install::contract_tilde("/home/me/skills/a", "/home/me"), "~/skills/a");
    assert_eq!(skills::install::contract_tilde("/home/me", "/home/me"), "~");
    assert_eq!(skills::install::contract_tilde("/home/meta/a", "/home/me"), "/home/meta/a");
    assert_eq!(skills::install::contract_tilde("/x", ""), "/x");
    assert_eq!(
        skills::install::local_source("/home/me/a", "/home/me"),
        Source::Local { path: Some("~/a".into()) }
    );
}
