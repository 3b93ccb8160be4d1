use cocogitto::bump::BumpError;
use cocogitto::bump::VersionIncrement;
use cocogitto::commit::ClassifiedCommit;
use cocogitto::commit::CommitKind;
use cocogitto::hook::HookError;
use cocogitto::hook::HookVersion;
use cocogitto::hook::instantiate;
use cocogitto::orchestrator::MonorepoOutcome;
use cocogitto::orchestrator::PackageInput;
use cocogitto::orchestrator::ReleaseError;
use cocogitto::orchestrator::ReleaseInput;
use cocogitto::orchestrator::ReleaseOutcome;
use cocogitto::orchestrator::plan_monorepo_release;
use cocogitto::orchestrator::plan_release;
use cocogitto::orchestrator::pre_bump_checks;
use cocogitto::orchestrator::rollback_report;
use cocogitto::settings::HookType;
use cocogitto::settings::MonoRepoPackage;
use cocogitto::settings::Profile;
use cocogitto::settings::Settings;
use cocogitto::tag::Tag;
use cocogitto::version::SemVer;

fn ver(major: u64, minor: u64, patch: u64) -> SemVer {
    SemVer {
        major,
        minor,
        patch,
        pre: Vec::new(),
        build: Vec::new(),
    }
}

fn tag(major: u64, minor: u64, patch: u64) -> Tag {
    Tag {
        version: ver(major, minor, patch),
        package: None,
        oid: None,
    }
}

fn commit(kind: CommitKind, summary: &str) -> ClassifiedCommit {
    ClassifiedCommit {
        kind,
        scope: None,
        raw_summary: summary.as_bytes().to_vec(),
    }
}

fn bare_settings() -> Settings {
    Settings {
        branch_whitelist: Vec::new(),
        sign: false,
        pre_bump_hooks: Vec::new(),
        post_bump_hooks: Vec::new(),
        profiles: Vec::new(),
        packages: Vec::new(),
    }
}

fn clean_input(current: Option<Tag>, commits: Vec<ClassifiedCommit>) -> ReleaseInput {
    ReleaseInput {
        working_tree_clean: true,
        branch: Some(b"main".to_vec()),
        current,
        commits,
    }
}

fn texts(v: &[&str]) -> Vec<Vec<u8>> {
    v.iter().map(|s| s.as_bytes().to_vec()).collect()
}

#[test]
fn hook_instantiation_substitutes_placeholders() {
    let next = HookVersion::new(Tag {
        version: ver(1, 3, 0),
        package: Some(b"pkga".to_vec()),
        oid: None,
    });
    let prev = HookVersion::new(Tag {
        version: ver(1, 2, 3),
        package: Some(b"pkga".to_vec()),
        oid: None,
    });
    let cmd = instantiate(
        b"cargo set-version {{version}} (was {{latest}}) tag {{tag}} pkg {{package}} \
          {{major}}.{{minor}}.{{patch}}",
        Some(&prev),
        &next,
    )
    .unwrap();
    assert_eq!(
        cmd,
        b"cargo set-version 1.3.0 (was 1.2.3) tag pkga-v1.3.0 pkg pkga 1.3.0".to_vec()
    );
}

#[test]
fn hook_latest_without_previous_is_unresolved() {
    let next = HookVersion::new(tag(1, 0, 0));
    assert!(matches!(
        instantiate(b"echo {{latest}}", None, &next),
        Err(HookError::UnresolvedPlaceholder)
    ));
}

#[test]
fn hook_package_outside_package_scope_is_unresolved() {
    let next = HookVersion::new(tag(1, 0, 0));
    let prev = HookVersion::new(tag(0, 9, 0));
    assert!(matches!(
        instantiate(b"echo {{package}}", Some(&prev), &next),
        Err(HookError::UnresolvedPlaceholder)
    ));
}

#[test]
fn hook_unknown_placeholder_is_literal() {
    let next = HookVersion::new(tag(1, 0, 0));
    let cmd = instantiate(b"echo {{unknown}} done", None, &next).unwrap();
    assert_eq!(cmd, b"echo {{unknown}} done".to_vec());
}

#[test]
fn hook_resolution_prefers_first_non_empty_source() {
    let mut settings = bare_settings();
    settings.pre_bump_hooks = texts(&["global default"]);
    settings.profiles = vec![Profile {
        name: b"ci".to_vec(),
        pre_bump_hooks: texts(&["global profile"]),
        post_bump_hooks: Vec::new(),
    }];
    settings.packages = vec![MonoRepoPackage {
        name: b"pkga".to_vec(),
        pre_bump_hooks: texts(&["package default"]),
        post_bump_hooks: Vec::new(),
        profiles: vec![Profile {
            name: b"ci".to_vec(),
            pre_bump_hooks: texts(&["package profile"]),
            post_bump_hooks: Vec::new(),
        }],
    }];

    let got = settings.resolve_hooks(HookType::PreBump, Some(b"pkga"), Some(b"ci"));
    assert_eq!(got, texts(&["package profile"]));

    let got = settings.resolve_hooks(HookType::PreBump, Some(b"pkga"), None);
    assert_eq!(got, texts(&["package default"]));

    let got = settings.resolve_hooks(HookType::PreBump, None, Some(b"ci"));
    assert_eq!(got, texts(&["global profile"]));

    let got = settings.resolve_hooks(HookType::PreBump, None, None);
    assert_eq!(got, texts(&["global default"]));

    // An empty package profile falls through to the package default, and an
    // empty package falls through to the global sources.
    settings.packages[0].profiles[0].pre_bump_hooks = Vec::new();
    let got = settings.resolve_hooks(HookType::PreBump, Some(b"pkga"), Some(b"ci"));
    assert_eq!(got, texts(&["package default"]));
    settings.packages[0].pre_bump_hooks = Vec::new();
    let got = settings.resolve_hooks(HookType::PreBump, Some(b"pkga"), Some(b"ci"));
    assert_eq!(got, texts(&["global profile"]));
}

#[test]
fn preflight_rejects_dirty_tree() {
    let settings = bare_settings();
    assert!(matches!(
        pre_bump_checks(&settings, false, Some(b"main")),
        Err(ReleaseError::DirtyWorkingTree)
    ));
}

#[test]
fn preflight_enforces_branch_allow_list() {
    let mut settings = bare_settings();
    settings.branch_whitelist = texts(&["main", "release/*"]);
    assert!(pre_bump_checks(&settings, true, Some(b"main")).is_ok());
    assert!(pre_bump_checks(&settings, true, Some(b"release/1.x")).is_ok());
    assert!(matches!(
        pre_bump_checks(&settings, true, Some(b"dev")),
        Err(ReleaseError::BranchNotAllowed)
    ));
    // No branch name and an empty list both pass.
    assert!(pre_bump_checks(&settings, true, None).is_ok());
    assert!(pre_bump_checks(&bare_settings(), true, Some(b"dev")).is_ok());
}

#[test]
fn plan_rejects_candidate_not_above_current() {
    let settings = bare_settings();
    let input = clean_input(Some(tag(1, 2, 3)), Vec::new());
    for text in ["1.2.3", "1.2.2", "0.9.9", "1.2.3-rc.1"] {
        let r = plan_release(
            &settings,
            &input,
            None,
            VersionIncrement::Manual(text.to_string()),
            None,
            None,
            false,
        );
        assert!(
            matches!(r, Err(ReleaseError::NonMonotonicVersion)),
            "{} must be rejected",
            text
        );
    }
    let r = plan_release(
        &settings,
        &input,
        None,
        VersionIncrement::Manual("1.2.4".to_string()),
        None,
        None,
        false,
    );
    assert!(matches!(r, Ok(ReleaseOutcome::Planned(_))));
}

#[test]
fn plan_propagates_no_qualifying_commit() {
    let settings = bare_settings();
    let input = clean_input(
        Some(tag(1, 2, 3)),
        vec![commit(CommitKind::Other, "chore: nothing actionable")],
    );
    let r = plan_release(
        &settings,
        &input,
        None,
        VersionIncrement::Auto,
        None,
        None,
        false,
    );
    assert!(matches!(
        r,
        Err(ReleaseError::Bump(BumpError::NoQualifyingCommit))
    ));
}

#[test]
fn dry_run_outputs_exactly_the_candidate_tag() {
    let settings = bare_settings();
    let input = clean_input(Some(tag(1, 0, 0)), Vec::new());
    let r = plan_release(
        &settings,
        &input,
        None,
        VersionIncrement::Manual("2.0.0".to_string()),
        None,
        None,
        true,
    )
    .unwrap();
    match r {
        ReleaseOutcome::DryRun(out) => assert_eq!(out, b"v2.0.0".to_vec()),
        ReleaseOutcome::Planned(_) => panic!("a dry run must not plan any mutation"),
    }
}

#[test]
fn missing_current_marker_falls_back_to_zero_baseline() {
    let settings = bare_settings();
    let input = clean_input(None, vec![commit(CommitKind::BugFix, "fix: off by one")]);
    let r = plan_release(
        &settings,
        &input,
        None,
        VersionIncrement::Auto,
        None,
        None,
        false,
    )
    .unwrap();
    match r {
        ReleaseOutcome::Planned(plan) => {
            assert_eq!(plan.next.tag.version.major, 0);
            assert_eq!(plan.next.tag.version.minor, 0);
            assert_eq!(plan.next.tag.version.patch, 1);
            assert_eq!(plan.next.prefixed_tag, b"v0.0.1".to_vec());
            assert!(plan.previous.is_none());
            assert_eq!(plan.commit_message, b"chore(version): v0.0.1".to_vec());
        },
        ReleaseOutcome::DryRun(_) => panic!("not a dry run"),
    }
}

#[test]
fn plan_carries_instantiated_hooks_in_order() {
    let mut settings = bare_settings();
    settings.pre_bump_hooks = texts(&["echo pre {{latest}} -> {{version}}", "make check"]);
    settings.post_bump_hooks = texts(&["git push", "echo released {{tag}}"]);
    let input = clean_input(
        Some(tag(1, 2, 3)),
        vec![commit(CommitKind::Feature, "feat: resolver")],
    );
    let r = plan_release(
        &settings,
        &input,
        None,
        VersionIncrement::Auto,
        None,
        None,
        false,
    )
    .unwrap();
    match r {
        ReleaseOutcome::Planned(plan) => {
            assert_eq!(
                plan.pre_hooks,
                texts(&["echo pre 1.2.3 -> 1.3.0", "make check"])
            );
            assert_eq!(plan.post_hooks, texts(&["git push", "echo released v1.3.0"]));
            assert_eq!(plan.commit_message, b"chore(version): v1.3.0".to_vec());
            assert_eq!(
                plan.previous.as_ref().map(|h| h.prefixed_tag.clone()),
                Some(b"v1.2.3".to_vec())
            );
        },
        ReleaseOutcome::DryRun(_) => panic!("not a dry run"),
    }
}

#[test]
fn plan_fails_on_unresolved_placeholder_before_any_effect() {
    let mut settings = bare_settings();
    settings.pre_bump_hooks = texts(&["echo {{latest}}"]);
    let input = clean_input(None, vec![commit(CommitKind::Feature, "feat: resolver")]);
    let r = plan_release(
        &settings,
        &input,
        None,
        VersionIncrement::Auto,
        None,
        None,
        false,
    );
    assert!(matches!(
        r,
        Err(ReleaseError::Hook(HookError::UnresolvedPlaceholder))
    ));
}

#[test]
fn pre_release_text_is_attached_and_validated() {
    let settings = bare_settings();
    let input = clean_input(
        Some(tag(1, 2, 3)),
        vec![commit(CommitKind::Feature, "feat: resolver")],
    );
    let r = plan_release(
        &settings,
        &input,
        None,
        VersionIncrement::Auto,
        Some(b"alpha.1"),
        None,
        true,
    )
    .unwrap();
    match r {
        ReleaseOutcome::DryRun(out) => assert_eq!(out, b"v1.3.0-alpha.1".to_vec()),
        ReleaseOutcome::Planned(_) => panic!("not planned"),
    }
    let r = plan_release(
        &settings,
        &input,
        None,
        VersionIncrement::Auto,
        Some(b"not a prerelease!"),
        None,
        true,
    );
    assert!(matches!(
        r,
        Err(ReleaseError::Bump(BumpError::InvalidVersion))
    ));
}

#[test]
fn pre_release_grammar_edges() {
    let settings = bare_settings();
    let input = clean_input(
        Some(tag(1, 2, 3)),
        vec![commit(CommitKind::Feature, "feat: resolver")],
    );
    // A digit-only identifier may be "0", but not carry a leading zero, and
    // no identifier may be empty.
    let ok = plan_release(
        &settings,
        &input,
        None,
        VersionIncrement::Auto,
        Some(b"rc.0"),
        None,
        true,
    )
    .unwrap();
    match ok {
        ReleaseOutcome::DryRun(out) => assert_eq!(out, b"v1.3.0-rc.0".to_vec()),
        ReleaseOutcome::Planned(_) => panic!("not planned"),
    }
    for bad in [&b"rc.01"[..], b"rc..1", b".rc", b"rc."] {
        let r = plan_release(
            &settings,
            &input,
            None,
            VersionIncrement::Auto,
            Some(bad),
            None,
            true,
        );
        assert!(
            matches!(r, Err(ReleaseError::Bump(BumpError::InvalidVersion))),
            "{:?} must be rejected",
            bad
        );
    }
}

#[test]
fn package_scope_shapes_baseline_and_tag() {
    let settings = bare_settings();
    let input = clean_input(None, vec![commit(CommitKind::Feature, "feat: resolver")]);
    let r = plan_release(
        &settings,
        &input,
        Some(b"pkga"),
        VersionIncrement::Auto,
        None,
        None,
        false,
    )
    .unwrap();
    match r {
        ReleaseOutcome::Planned(plan) => {
            assert_eq!(plan.next.tag.package, Some(b"pkga".to_vec()));
            assert_eq!(plan.next.prefixed_tag, b"pkga-v0.1.0".to_vec());
        },
        ReleaseOutcome::DryRun(_) => panic!("not a dry run"),
    }
}

fn two_package_inputs() -> Vec<PackageInput> {
    vec![
        PackageInput {
            name: b"pkga".to_vec(),
            current: Some(Tag {
                version: ver(0, 1, 0),
                package: Some(b"pkga".to_vec()),
                oid: None,
            }),
            commits: vec![commit(CommitKind::Feature, "feat: a feature")],
        },
        PackageInput {
            name: b"pkgb".to_vec(),
            current: None,
            commits: vec![commit(CommitKind::BugFix, "fix: b fix")],
        },
    ]
}

#[test]
fn monorepo_accumulates_records_and_one_aggregate_commit() {
    let settings = bare_settings();
    let r = plan_monorepo_release(
        &settings,
        true,
        Some(b"main"),
        &two_package_inputs(),
        None,
        None,
        false,
    )
    .unwrap();
    match r {
        MonorepoOutcome::Planned(plan) => {
            assert_eq!(plan.records.len(), 2);
            assert_eq!(plan.records[0].package, b"pkga".to_vec());
            assert_eq!(
                plan.records[0].next.prefixed_tag,
                b"pkga-v0.2.0".to_vec()
            );
            assert_eq!(plan.records[1].package, b"pkgb".to_vec());
            assert_eq!(
                plan.records[1].next.prefixed_tag,
                b"pkgb-v0.0.1".to_vec()
            );
            assert!(plan.records[1].previous.is_none());
            assert_eq!(plan.commit_message, b"chore(version): Bump".to_vec());
        },
        MonorepoOutcome::DryRun(_) => panic!("not a dry run"),
    }
}

#[test]
fn monorepo_skips_package_with_no_qualifying_commit() {
    let settings = bare_settings();
    let mut inputs = two_package_inputs();
    inputs[0].commits = vec![commit(CommitKind::Other, "chore: noise")];
    let r = plan_monorepo_release(&settings, true, None, &inputs, None, None, false).unwrap();
    match r {
        MonorepoOutcome::Planned(plan) => {
            assert_eq!(plan.records.len(), 1);
            assert_eq!(plan.records[0].package, b"pkgb".to_vec());
        },
        MonorepoOutcome::DryRun(_) => panic!("not a dry run"),
    }
}

#[test]
fn monorepo_dry_run_lists_candidate_tags_only() {
    let settings = bare_settings();
    let r = plan_monorepo_release(
        &settings,
        true,
        None,
        &two_package_inputs(),
        None,
        None,
        true,
    )
    .unwrap();
    match r {
        MonorepoOutcome::DryRun(out) => {
            assert_eq!(out, texts(&["pkga-v0.2.0", "pkgb-v0.0.1"]));
        },
        MonorepoOutcome::Planned(_) => panic!("a dry run must not plan any mutation"),
    }
}

#[test]
fn monorepo_pre_hook_failure_aborts_with_rollback_record() {
    // Package A resolves; package B's pre-bump hook then exits non-zero while
    // the caller is running the planned pre-bump phase. The whole operation
    // aborts before the aggregate commit: the caller stashes under a record
    // naming B's candidate marker and terminates, so A's staged changes are
    // never committed either.
    let settings = bare_settings();
    let r = plan_monorepo_release(
        &settings,
        true,
        None,
        &two_package_inputs(),
        None,
        None,
        false,
    )
    .unwrap();
    let plan = match r {
        MonorepoOutcome::Planned(plan) => plan,
        MonorepoOutcome::DryRun(_) => panic!("not a dry run"),
    };
    let failed = &plan.records[1];
    let report = rollback_report(&failed.marker, HookError::HookExecutionError(Some(1)));
    assert_eq!(report.version, b"pkgb-v0.0.1".to_vec());
    assert!(matches!(
        report.cause,
        HookError::HookExecutionError(Some(1))
    ));
    assert_eq!(report.stash_number, 0);
}

#[test]
fn monorepo_invalid_pre_release_aborts_everything() {
    let settings = bare_settings();
    let r = plan_monorepo_release(
        &settings,
        true,
        None,
        &two_package_inputs(),
        Some(b"not a prerelease!"),
        None,
        false,
    );
    assert!(matches!(
        r,
        Err(ReleaseError::Bump(BumpError::InvalidVersion))
    ));
}

#[test]
fn monorepo_dirty_tree_fails_before_anything() {
    let settings = bare_settings();
    let r = plan_monorepo_release(
        &settings,
        false,
        None,
        &two_package_inputs(),
        None,
        None,
        false,
    );
    assert!(matches!(r, Err(ReleaseError::DirtyWorkingTree)));
}
