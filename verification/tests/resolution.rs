use cocogitto::bump::BumpError;
use cocogitto::bump::VersionIncrement;
use cocogitto::commit::BumpDecision;
use cocogitto::commit::ClassifiedCommit;
use cocogitto::commit::CommitKind;
use cocogitto::tag::Tag;
use cocogitto::version::SemVer;

fn same_ver(a: &SemVer, b: &SemVer) -> bool {
    a.major == b.major && a.minor == b.minor && a.patch == b.patch && a.pre == b.pre
        && a.build == b.build
}

fn ver(major: u64, minor: u64, patch: u64) -> SemVer {
    SemVer {
        major,
        minor,
        patch,
        pre: Vec::new(),
        build: Vec::new(),
    }
}

fn ver_pre(major: u64, minor: u64, patch: u64, pre: &str) -> SemVer {
    SemVer {
        major,
        minor,
        patch,
        pre: pre.as_bytes().to_vec(),
        build: Vec::new(),
    }
}

fn tag(major: u64, minor: u64, patch: u64) -> Tag {
    Tag {
        version: ver(major, minor, patch),
        package: None,
        oid: None,
    }
}

fn commit(kind: CommitKind, summary: &str) -> ClassifiedCommit {
    ClassifiedCommit {
        kind,
        scope: None,
        raw_summary: summary.as_bytes().to_vec(),
    }
}

#[test]
fn breaking_commit_forces_major_past_one() {
    let t = tag(1, 2, 3);
    let window = vec![
        commit(CommitKind::Feature, "feat: add parser"),
        commit(CommitKind::Breaking, "feat!: drop old api"),
        commit(CommitKind::BugFix, "fix: null check"),
    ];
    let d = t.version_increment_from_commit_history(&window);
    assert_eq!(d, Ok(BumpDecision::Major));
}

#[test]
fn pre_stable_breaking_alone_yields_no_bump() {
    let t = tag(0, 3, 0);
    let window = vec![commit(CommitKind::Breaking, "feat!: drop old api")];
    let d = t.version_increment_from_commit_history(&window);
    assert_eq!(d, Err(BumpError::NoQualifyingCommit));
}

#[test]
fn feature_beats_bugfix() {
    let t = tag(1, 2, 3);
    let window = vec![
        commit(CommitKind::BugFix, "fix: typo"),
        commit(CommitKind::Feature, "feat: new flag"),
    ];
    assert_eq!(
        t.version_increment_from_commit_history(&window),
        Ok(BumpDecision::Minor)
    );
}

#[test]
fn bugfix_alone_yields_patch() {
    let t = tag(1, 2, 3);
    let window = vec![
        commit(CommitKind::Other, "chore: deps"),
        commit(CommitKind::BugFix, "fix: typo"),
    ];
    assert_eq!(
        t.version_increment_from_commit_history(&window),
        Ok(BumpDecision::Patch)
    );
}

#[test]
fn empty_window_yields_nothing() {
    let t = tag(1, 2, 3);
    let window: Vec<ClassifiedCommit> = Vec::new();
    assert_eq!(
        t.version_increment_from_commit_history(&window),
        Err(BumpError::NoQualifyingCommit)
    );
}

#[test]
fn arithmetic_bumps_zero_lower_fields() {
    let t = Tag {
        version: SemVer {
            major: 1,
            minor: 2,
            patch: 3,
            pre: b"alpha.1".to_vec(),
            build: b"build5".to_vec(),
        },
        package: Some(b"pkga".to_vec()),
        oid: Some(b"deadbeef".to_vec()),
    };
    let major = t.major_bump();
    assert!(same_ver(&major.version, &ver(2, 0, 0)));
    assert_eq!(major.package, Some(b"pkga".to_vec()));
    assert_eq!(major.oid, None);

    let minor = t.minor_bump();
    assert!(same_ver(&minor.version, &ver(1, 3, 0)));
    assert_eq!(minor.oid, None);

    let patch = t.patch_bump();
    assert!(same_ver(&patch.version, &ver(1, 2, 4)));
    assert!(patch.version.pre.is_empty());
    assert!(patch.version.build.is_empty());
    assert_eq!(patch.oid, None);
}

#[test]
fn manual_bump_parses_full_version_text() {
    let t = tag(1, 0, 0);
    let next = t.manual_bump("9.8.7-rc.1+build5").unwrap();
    assert!(same_ver(
        &next.version,
        &SemVer {
            major: 9,
            minor: 8,
            patch: 7,
            pre: b"rc.1".to_vec(),
            build: b"build5".to_vec(),
        }
    ));
    assert_eq!(next.oid, None);
}

#[test]
fn manual_bump_rejects_invalid_text() {
    let t = tag(1, 0, 0);
    assert!(matches!(
        t.manual_bump("not-a-version"),
        Err(BumpError::InvalidVersion)
    ));
    assert!(matches!(t.manual_bump("1.2"), Err(BumpError::InvalidVersion)));
}

#[test]
fn manual_bump_ignores_current_version() {
    let t = tag(5, 0, 0);
    let next = t.manual_bump("1.0.0").unwrap();
    assert!(same_ver(&next.version, &ver(1, 0, 0)));
}

#[test]
fn auto_bump_applies_classified_level() {
    let t = tag(1, 2, 3);
    let window = vec![
        commit(CommitKind::Feature, "feat: add parser"),
        commit(CommitKind::BugFix, "fix: typo"),
    ];
    let next = t.bump(VersionIncrement::Auto, &window).unwrap();
    assert!(same_ver(&next.version, &ver(1, 3, 0)));
}

#[test]
fn auto_bump_drops_merge_commits() {
    let t = tag(1, 2, 3);
    let window = vec![commit(CommitKind::Feature, "Merge branch 'feature/x'")];
    assert!(matches!(
        t.bump(VersionIncrement::Auto, &window),
        Err(BumpError::NoQualifyingCommit)
    ));
}

#[test]
fn explicit_bump_levels() {
    let t = tag(1, 2, 3);
    let none: Vec<ClassifiedCommit> = Vec::new();
    assert!(same_ver(
        &t.bump(VersionIncrement::Major, &none).unwrap().version,
        &ver(2, 0, 0)
    ));
    assert!(same_ver(
        &t.bump(VersionIncrement::Minor, &none).unwrap().version,
        &ver(1, 3, 0)
    ));
    assert!(same_ver(
        &t.bump(VersionIncrement::Patch, &none).unwrap().version,
        &ver(1, 2, 4)
    ));
    assert!(same_ver(
        &t.bump(VersionIncrement::Manual("2.5.9".to_string()), &none)
            .unwrap()
            .version,
        &ver(2, 5, 9)
    ));
}

#[test]
fn precedence_orders_semver_spec_chain() {
    let chain = vec![
        ver_pre(1, 0, 0, "alpha"),
        ver_pre(1, 0, 0, "alpha.1"),
        ver_pre(1, 0, 0, "alpha.beta"),
        ver_pre(1, 0, 0, "beta"),
        ver_pre(1, 0, 0, "beta.2"),
        ver_pre(1, 0, 0, "beta.11"),
        ver_pre(1, 0, 0, "rc.1"),
        ver(1, 0, 0),
    ];
    for i in 0..chain.len() {
        for j in 0..chain.len() {
            assert_eq!(chain[i].lt(&chain[j]), i < j, "chain position {} vs {}", i, j);
        }
    }
}

#[test]
fn precedence_compares_triples_numerically() {
    assert!(ver(1, 9, 0).lt(&ver(1, 10, 0)));
    assert!(ver(1, 2, 3).lt(&ver(2, 0, 0)));
    assert!(!ver(2, 0, 0).lt(&ver(1, 99, 99)));
    assert!(!ver(1, 2, 3).lt(&ver(1, 2, 3)));
}

#[test]
fn precedence_ignores_build_metadata() {
    let a = SemVer {
        major: 1,
        minor: 0,
        patch: 0,
        pre: Vec::new(),
        build: b"a1".to_vec(),
    };
    let b = SemVer {
        major: 1,
        minor: 0,
        patch: 0,
        pre: Vec::new(),
        build: b"b2".to_vec(),
    };
    assert!(!a.lt(&b));
    assert!(!b.lt(&a));
}

#[test]
fn display_tag_renders_scope_and_metadata() {
    let t = Tag {
        version: SemVer {
            major: 1,
            minor: 2,
            patch: 3,
            pre: b"rc.1".to_vec(),
            build: b"b5".to_vec(),
        },
        package: Some(b"pkga".to_vec()),
        oid: None,
    };
    assert_eq!(t.display_tag(), b"pkga-v1.2.3-rc.1+b5".to_vec());
    let plain = tag(10, 0, 2);
    assert_eq!(plain.display_tag(), b"v10.0.2".to_vec());
    assert_eq!(plain.version_text(), b"10.0.2".to_vec());
}
