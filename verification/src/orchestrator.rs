//! The release orchestrator: from the reported repository state and a bump
//! request to a guarded release plan.
//!
//! The caller reads the repository (status, branch, latest markers, commit
//! windows), hands the plain values in, and receives either a terminal error,
//! a dry-run output, or a plan: the instantiated pre-bump hook commands, the
//! bump commit message, the marker to create, and the post-bump hook
//! commands, in the order the workflow performs them. Nothing is planned —
//! so nothing is to be executed — unless the preflight checks pass and the
//! candidate marker lies strictly above the current one; a failing pre-bump
//! hook is answered with a rollback record that names the stashed candidate.

use vstd::prelude::*;
use crate::bump::BumpError;
use crate::bump::VersionIncrement;
use crate::bump::bump_fits;
use crate::bump::prerelease_ok;
use crate::bump::spec_resolve_marker;
use crate::commit::ClassifiedCommit;
use crate::commit::CommitView;
use crate::commit::commit_views;
use crate::hook::HookError;
use crate::hook::HookVersion;
use crate::hook::spec_subst;
use crate::settings::HookType;
use crate::settings::Settings;
use crate::settings::SettingsView;
use crate::settings::spec_resolve_hooks;
use crate::tag::Tag;
use crate::tag::TagView;
use crate::tag::display_of;
use crate::text::texts;
use crate::version::SemVerView;
use crate::version::semver_le;
use crate::version::semver_lt;

verus! {

/// Why a release unit failed, before any repository mutation was planned.
#[derive(Clone, Copy, Debug, PartialEq, Eq, Structural)]
pub enum ReleaseError {
    /// The working tree holds unstaged or uncommitted changes.
    DirtyWorkingTree,
    /// A branch allow-list is configured and the current branch matches none
    /// of its patterns.
    BranchNotAllowed,
    /// The candidate version does not lie strictly above the current one.
    NonMonotonicVersion,
    /// Version resolution failed.
    Bump(BumpError),
    /// Hook parameterization failed.
    Hook(HookError),
}

/// What `globset` makes of one pattern applied to one text: `None` when the
/// pattern is not a valid glob or cannot be compiled (or either side is not
/// text), else whether it matches. Within one build this depends on pattern
/// and text alone; how a backslash in a pattern is read is fixed per compile
/// target by globset's defaults.
pub uninterp spec fn glob_match(pattern: Seq<u8>, text: Seq<u8>) -> Option<bool>;

/// Relies on `globset::Glob::new`, `GlobSetBuilder::build` and
/// `GlobSet::is_match`: pattern validity, compilability and the match
/// outcome depend on the pattern and text alone. Compilation goes through
/// `GlobSetBuilder::build`, which reports a pattern that exceeds the regex
/// size limit as an error instead of panicking.
#[verifier::external_body]
fn glob_match_bytes(pattern: &[u8], text: &[u8]) -> (r: Option<bool>)
    ensures
        r == glob_match(pattern@, text@),
{
    let p = core::str::from_utf8(pattern).ok()?;
    let t = core::str::from_utf8(text).ok()?;
    let glob = globset::Glob::new(p).ok()?;
    let set = globset::GlobSetBuilder::new().add(glob).build().ok()?;
    Some(set.is_match(t))
}

/// The branch passes the allow-list: the list is empty, no branch name is
/// known, or some pattern of the list matches the name. A pattern that is
/// not a valid glob, or that cannot be compiled, matches nothing.
pub open spec fn branch_allowed(whitelist: Seq<Seq<u8>>, branch: Option<Seq<u8>>) -> bool {
    ||| whitelist.len() == 0
    ||| branch is None
    ||| exists|i: int|
        0 <= i < whitelist.len() && glob_match(#[trigger] whitelist[i], branch->0) == Some(true)
}

fn branch_allowed_exec(whitelist: &Vec<Vec<u8>>, branch: Option<&[u8]>) -> (r: bool)
    ensures
        r == branch_allowed(
            texts(whitelist@),
            (match branch {
                Some(b) => Some(b@),
                None => None,
            }),
        ),
{
    if whitelist.len() == 0 {
        return true;
    }
    if branch.is_none() {
        return true;
    }
    let b = branch.unwrap();
    let ghost wl = texts(whitelist@);
    let n = whitelist.len();
    let mut i: usize = 0;
    while i < n
        invariant
            n == whitelist@.len(),
            i <= n,
            wl == texts(whitelist@),
            branch is Some,
            branch->0 == b,
            forall|j: int| 0 <= j < i ==> glob_match(#[trigger] wl[j], b@) != Some(true),
        decreases n - i,
    {
        match glob_match_bytes(whitelist[i].as_slice(), b) {
            Some(true) => {
                proof {
                    assert(glob_match(wl[i as int], b@) == Some(true));
                    assert(branch_allowed(wl, Some(b@)));
                }
                return true;
            },
            _ => {},
        }
        i += 1;
    }
    false
}

/// Runs the preflight checks: the working tree must be clean, and the branch
/// must pass a configured allow-list. Both failures are terminal and precede
/// every side effect.
pub fn pre_bump_checks(settings: &Settings, working_tree_clean: bool, branch: Option<&[u8]>) -> (r:
    Result<(), ReleaseError>)
    ensures
        (if !working_tree_clean {
            r matches Err(e) && e == ReleaseError::DirtyWorkingTree
        } else if !branch_allowed(
            settings@.whitelist,
            (match branch {
                Some(b) => Some(b@),
                None => None,
            }),
        ) {
            r matches Err(e) && e == ReleaseError::BranchNotAllowed
        } else {
            r is Ok
        }),
{
    if !working_tree_clean {
        return Err(ReleaseError::DirtyWorkingTree);
    }
    if !branch_allowed_exec(&settings.branch_whitelist, branch) {
        return Err(ReleaseError::BranchNotAllowed);
    }
    Ok(())
}

/// The marker a release unit starts from: the fetched current marker, or the
/// implicit `0.0.0` baseline in the unit's scope when none exists yet.
pub open spec fn baseline_of(current: Option<TagView>, scope: Option<Seq<u8>>) -> TagView {
    match current {
        Some(t) => t,
        None => TagView {
            version: SemVerView {
                major: 0,
                minor: 0,
                patch: 0,
                pre: Seq::empty(),
                build: Seq::empty(),
            },
            package: scope,
            oid: None,
        },
    }
}

/// The candidate marker after resolution and, when pre-release text is
/// given, after attaching it.
pub open spec fn spec_candidate(
    base: TagView,
    increment: VersionIncrement,
    commits: Seq<CommitView>,
    pre: Option<Seq<u8>>,
) -> Result<TagView, BumpError> {
    match spec_resolve_marker(base, increment, commits) {
        Err(e) => Err(e),
        Ok(t) => (match pre {
            None => Ok(t),
            Some(p) => (if prerelease_ok(p) {
                Ok(TagView { version: SemVerView { pre: p, ..t.version }, ..t })
            } else {
                Err(BumpError::InvalidVersion)
            }),
        }),
    }
}

/// All hook templates instantiated, or the first failure.
pub open spec fn spec_subst_all(
    templates: Seq<Seq<u8>>,
    prev: Option<TagView>,
    next: TagView,
) -> Option<Seq<Seq<u8>>>
    decreases templates.len(),
{
    if templates.len() == 0 {
        Some(Seq::empty())
    } else {
        match spec_subst(templates[0], prev, next) {
            None => None,
            Some(c) => (match spec_subst_all(templates.skip(1), prev, next) {
                None => None,
                Some(rest) => Some(seq![c] + rest),
            }),
        }
    }
}

pub open spec fn opt_hook_tag(o: Option<HookVersion>) -> Option<TagView> {
    match o {
        Some(h) => Some(h.tag@),
        None => None,
    }
}

/// Instantiates a list of hook templates in declaration order, stopping at
/// the first unresolved placeholder.
pub fn instantiate_all(templates: &[Vec<u8>], previous: Option<&HookVersion>, next: &HookVersion)
    -> (r: Result<Vec<Vec<u8>>, HookError>)
    ensures
        (match spec_subst_all(
            texts(templates@),
            (match previous {
                Some(h) => Some(h.tag@),
                None => None,
            }),
            next.tag@,
        ) {
            Some(cmds) => r matches Ok(v) && texts(v@) == cmds,
            None => r matches Err(e) && e == HookError::UnresolvedPlaceholder,
        }),
    decreases templates@.len(),
{
    if templates.len() == 0 {
        let out: Vec<Vec<u8>> = Vec::new();
        proof {
            assert(texts(out@) =~= Seq::<Seq<u8>>::empty());
        }
        return Ok(out);
    }
    let head = vstd::slice::slice_index_get(templates, 0);
    match crate::hook::instantiate(head.as_slice(), previous, next) {
        Err(e) => Err(e),
        Ok(c) => {
            let tail = vstd::slice::slice_subrange(templates, 1, templates.len());
            proof {
                assert(texts(tail@) =~= texts(templates@).skip(1));
            }
            match instantiate_all(tail, previous, next) {
                Err(e) => Err(e),
                Ok(mut rest) => {
                    let ghost rest0 = rest@;
                    let ghost cv = c@;
                    rest.insert(0, c);
                    proof {
                        assert(texts(rest@) =~= seq![cv] + texts(rest0));
                    }
                    Ok(rest)
                },
            }
        },
    }
}

/// The bytes of `"chore(version): "`, the prefix of every bump commit
/// message.
pub open spec fn chore_prefix() -> Seq<u8> {
    seq![
        99u8,
        104u8,
        111u8,
        114u8,
        101u8,
        40u8,
        118u8,
        101u8,
        114u8,
        115u8,
        105u8,
        111u8,
        110u8,
        41u8,
        58u8,
        32u8,
    ]
}

/// The deterministic bump commit message: the prefix, then the new marker's
/// human-facing tag text.
pub open spec fn release_commit_message(t: TagView) -> Seq<u8> {
    chore_prefix() + display_of(t)
}

fn chore_prefix_bytes() -> (r: Vec<u8>)
    ensures
        r@ == chore_prefix(),
{
    let mut v: Vec<u8> = Vec::new();
    v.push(99);
    v.push(104);
    v.push(111);
    v.push(114);
    v.push(101);
    v.push(40);
    v.push(118);
    v.push(101);
    v.push(114);
    v.push(115);
    v.push(105);
    v.push(111);
    v.push(110);
    v.push(41);
    v.push(58);
    v.push(32);
    proof {
        assert(v@ =~= chore_prefix());
    }
    v
}

/// What the backend reported for one release unit, fetched by the caller
/// immediately before planning: working-tree cleanliness, the current branch
/// name, the latest marker of the unit's scope, and the raw commit window
/// from that marker (or the first commit) to the head.
pub struct ReleaseInput {
    pub working_tree_clean: bool,
    pub branch: Option<Vec<u8>>,
    pub current: Option<Tag>,
    pub commits: Vec<ClassifiedCommit>,
}

/// A planned release for one unit, in workflow order: run the pre-bump
/// hooks, stage everything and create the bump commit, create the marker as
/// a tag, then run the post-bump hooks.
pub struct ReleasePlan {
    pub previous: Option<HookVersion>,
    pub next: HookVersion,
    pub pre_hooks: Vec<Vec<u8>>,
    pub post_hooks: Vec<Vec<u8>>,
    pub commit_message: Vec<u8>,
    pub sign: bool,
}

/// What planning a unit yields: in dry-run mode the candidate marker's tag
/// text, to be written to standard output with no repository mutation at
/// all; otherwise the plan.
pub enum ReleaseOutcome {
    DryRun(Vec<u8>),
    Planned(ReleasePlan),
}

/// The current marker's model, if one was found.
pub open spec fn current_view(current: Option<Tag>) -> Option<TagView> {
    match current {
        Some(t) => Some(t@),
        None => None,
    }
}

/// Plans one release unit: repository-wide when `package` is `None`, one
/// package's independent lineage otherwise. No effect is planned unless the
/// preflight checks pass, resolution succeeds and the candidate lies
/// strictly above the baseline; dry-run mode yields only the candidate's tag
/// text.
pub fn plan_release(
    settings: &Settings,
    input: &ReleaseInput,
    package: Option<&[u8]>,
    increment: VersionIncrement,
    pre_release: Option<&[u8]>,
    hook_profile: Option<&[u8]>,
    dry_run: bool,
) -> (r: Result<ReleaseOutcome, ReleaseError>)
    requires
        bump_fits(
            baseline_of(
                current_view(input.current),
                (match package {
                    Some(p) => Some(p@),
                    None => None,
                }),
            ),
            increment,
            commit_views(input.commits@),
        ),
    ensures
        ({
            let branch_v = match input.branch {
                Some(b) => Some(b@),
                None => None,
            };
            let scope_v = match package {
                Some(p) => Some(p@),
                None => None,
            };
            let cur_v = current_view(input.current);
            let base = baseline_of(cur_v, scope_v);
            let pre_v = match pre_release {
                Some(p) => Some(p@),
                None => None,
            };
            let prof_v = match hook_profile {
                Some(p) => Some(p@),
                None => None,
            };
            if !input.working_tree_clean {
                r matches Err(e) && e == ReleaseError::DirtyWorkingTree
            } else if !branch_allowed(settings@.whitelist, branch_v) {
                r matches Err(e) && e == ReleaseError::BranchNotAllowed
            } else {
                match spec_candidate(base, increment, commit_views(input.commits@), pre_v) {
                    Err(be) => r matches Err(e) && e == ReleaseError::Bump(be),
                    Ok(cand) => (if !semver_lt(base.version, cand.version) {
                        r matches Err(e) && e == ReleaseError::NonMonotonicVersion
                    } else if dry_run {
                        r matches Ok(o) && o matches ReleaseOutcome::DryRun(out) && out@
                            == display_of(cand)
                    } else {
                        match (
                            spec_subst_all(
                                spec_resolve_hooks(settings@, HookType::PreBump, scope_v, prof_v),
                                cur_v,
                                cand,
                            ),
                            spec_subst_all(
                                spec_resolve_hooks(settings@, HookType::PostBump, scope_v, prof_v),
                                cur_v,
                                cand,
                            ),
                        ) {
                            (Some(pre_cmds), Some(post_cmds)) => r matches Ok(o) && o matches
                                ReleaseOutcome::Planned(p) && p.next.tag@ == cand
                                && p.next.prefixed_tag@ == display_of(cand) && opt_hook_tag(
                                p.previous,
                            ) == cur_v && (p.previous matches Some(h) ==> h.prefixed_tag@
                                == display_of(h.tag@)) && texts(p.pre_hooks@) == pre_cmds && texts(
                                p.post_hooks@,
                            ) == post_cmds && p.commit_message@ == release_commit_message(cand)
                                && p.sign == settings@.sign,
                            _ => r matches Err(e) && e == ReleaseError::Hook(
                                HookError::UnresolvedPlaceholder,
                            ),
                        }
                    }),
                }
            }
        }),
{
    let branch_ref: Option<&[u8]> = match input.branch {
        Some(ref b) => Some(b.as_slice()),
        None => None,
    };
    match pre_bump_checks(settings, input.working_tree_clean, branch_ref) {
        Err(e) => { return Err(e); },
        Ok(()) => {},
    }
    let base: Tag = match input.current {
        Some(ref t) => t.clone(),
        None => {
            let mut d = Tag::default();
            d.package = match package {
                Some(p) => Some(crate::text::slice_to_bytes(p)),
                None => None,
            };
            d
        },
    };
    proof {
        assert(base@ =~~= baseline_of(
            current_view(input.current),
            (match package {
                Some(p) => Some(p@),
                None => None,
            }),
        ));
    }
    let resolved = base.bump(increment, &input.commits);
    let cand: Tag = match resolved {
        Ok(t) => t,
        Err(e) => { return Err(ReleaseError::Bump(e)); },
    };
    let cand: Tag = match pre_release {
        Some(p) => {
            match cand.with_pre_release(p) {
                Ok(t) => {
                    proof {
                        assert(t@ =~~= (TagView {
                            version: SemVerView { pre: p@, ..cand@.version },
                            ..cand@
                        }));
                    }
                    t
                },
                Err(e) => { return Err(ReleaseError::Bump(e)); },
            }
        },
        None => cand,
    };
    if !base.version.lt(&cand.version) {
        return Err(ReleaseError::NonMonotonicVersion);
    }
    if dry_run {
        return Ok(ReleaseOutcome::DryRun(cand.display_tag()));
    }
    let previous: Option<HookVersion> = match input.current {
        Some(ref t) => Some(HookVersion::new(t.clone())),
        None => None,
    };
    let next = HookVersion::new(cand);
    let pre_templates = settings.resolve_hooks(HookType::PreBump, package, hook_profile);
    let pre_cmds = match instantiate_all(pre_templates.as_slice(), previous.as_ref(), &next) {
        Ok(v) => v,
        Err(e) => { return Err(ReleaseError::Hook(e)); },
    };
    let post_templates = settings.resolve_hooks(HookType::PostBump, package, hook_profile);
    let post_cmds = match instantiate_all(post_templates.as_slice(), previous.as_ref(), &next) {
        Ok(v) => v,
        Err(e) => { return Err(ReleaseError::Hook(e)); },
    };
    let mut commit_message = chore_prefix_bytes();
    crate::text::push_bytes(&mut commit_message, next.prefixed_tag.as_slice());
    Ok(
        ReleaseOutcome::Planned(
            ReleasePlan {
                previous,
                next,
                pre_hooks: pre_cmds,
                post_hooks: post_cmds,
                commit_message,
                sign: settings.sign,
            },
        ),
    )
}

/// What the backend reported for one configured package: its name, its
/// latest package-scoped marker, and its raw commit window.
pub struct PackageInput {
    pub name: Vec<u8>,
    pub current: Option<Tag>,
    pub commits: Vec<ClassifiedCommit>,
}

/// The mathematical model of a `PackageInput`.
#[verifier::ext_equal]
pub ghost struct PackageInputView {
    pub name: Seq<u8>,
    pub current: Option<TagView>,
    pub commits: Seq<CommitView>,
}

impl View for PackageInput {
    type V = PackageInputView;

    open spec fn view(&self) -> PackageInputView {
        PackageInputView {
            name: self.name@,
            current: current_view(self.current),
            commits: commit_views(self.commits@),
        }
    }
}

pub open spec fn package_input_views(s: Seq<PackageInput>) -> Seq<PackageInputView> {
    s.map(|i: int, p: PackageInput| p@)
}

/// One package's accumulated bump, planned before any tagging happens.
pub struct PackageBumpRecord {
    pub package: Vec<u8>,
    pub previous: Option<HookVersion>,
    pub next: HookVersion,
    pub marker: Tag,
    pub pre_hooks: Vec<Vec<u8>>,
    pub post_hooks: Vec<Vec<u8>>,
}

/// The mathematical model of a `PackageBumpRecord`.
#[verifier::ext_equal]
pub ghost struct RecordView {
    pub package: Seq<u8>,
    pub previous: Option<TagView>,
    pub next: TagView,
    pub pre_hooks: Seq<Seq<u8>>,
    pub post_hooks: Seq<Seq<u8>>,
}

impl View for PackageBumpRecord {
    type V = RecordView;

    open spec fn view(&self) -> RecordView {
        RecordView {
            package: self.package@,
            previous: opt_hook_tag(self.previous),
            next: self.next.tag@,
            pre_hooks: texts(self.pre_hooks@),
            post_hooks: texts(self.post_hooks@),
        }
    }
}

pub open spec fn record_views(s: Seq<PackageBumpRecord>) -> Seq<RecordView> {
    s.map(|i: int, r: PackageBumpRecord| r@)
}

/// A record's rendered texts agree with its markers, and its marker is the
/// one the snapshot carries.
pub open spec fn record_well_formed(r: PackageBumpRecord) -> bool {
    &&& r.next.prefixed_tag@ == display_of(r.next.tag@)
    &&& r.marker@ == r.next.tag@
    &&& (r.previous matches Some(h) ==> h.prefixed_tag@ == display_of(h.tag@))
}

/// One package's candidate under automatic resolution: `None` when its
/// window justifies no bump (the package is skipped, not an error); any
/// other failure aborts the whole multi-package operation.
pub open spec fn spec_package_candidate(p: PackageInputView, pre: Option<Seq<u8>>) -> Result<
    Option<TagView>,
    ReleaseError,
> {
    let base = baseline_of(p.current, Some(p.name));
    match spec_candidate(base, VersionIncrement::Auto, p.commits, pre) {
        Err(e) => (if e == BumpError::NoQualifyingCommit {
            Ok(None)
        } else {
            Err(ReleaseError::Bump(e))
        }),
        Ok(cand) => (if !semver_lt(base.version, cand.version) {
            Err(ReleaseError::NonMonotonicVersion)
        } else {
            Ok(Some(cand))
        }),
    }
}

/// One package's planned record, hooks included.
pub open spec fn spec_package_record(
    s: SettingsView,
    p: PackageInputView,
    pre: Option<Seq<u8>>,
    prof: Option<Seq<u8>>,
) -> Result<Option<RecordView>, ReleaseError> {
    match spec_package_candidate(p, pre) {
        Err(e) => Err(e),
        Ok(None) => Ok(None),
        Ok(Some(cand)) => (match (
            spec_subst_all(
                spec_resolve_hooks(s, HookType::PreBump, Some(p.name), prof),
                p.current,
                cand,
            ),
            spec_subst_all(
                spec_resolve_hooks(s, HookType::PostBump, Some(p.name), prof),
                p.current,
                cand,
            ),
        ) {
            (Some(prc), Some(poc)) => Ok(
                Some(
                    RecordView {
                        package: p.name,
                        previous: p.current,
                        next: cand,
                        pre_hooks: prc,
                        post_hooks: poc,
                    },
                ),
            ),
            _ => Err(ReleaseError::Hook(HookError::UnresolvedPlaceholder)),
        }),
    }
}

/// The records of all packages, in configuration order, skipping the
/// unqualifying ones; the first failure aborts everything.
pub open spec fn spec_monorepo_records(
    s: SettingsView,
    inputs: Seq<PackageInputView>,
    pre: Option<Seq<u8>>,
    prof: Option<Seq<u8>>,
) -> Result<Seq<RecordView>, ReleaseError>
    decreases inputs.len(),
{
    if inputs.len() == 0 {
        Ok(Seq::empty())
    } else {
        match spec_package_record(s, inputs[0], pre, prof) {
            Err(e) => Err(e),
            Ok(None) => spec_monorepo_records(s, inputs.skip(1), pre, prof),
            Ok(Some(rec)) => (match spec_monorepo_records(s, inputs.skip(1), pre, prof) {
                Err(e) => Err(e),
                Ok(rest) => Ok(seq![rec] + rest),
            }),
        }
    }
}

/// The dry-run outputs: each non-skipped package's candidate tag text, in
/// configuration order. Hooks are never touched on a dry run.
pub open spec fn spec_monorepo_dry(inputs: Seq<PackageInputView>, pre: Option<Seq<u8>>) -> Result<
    Seq<Seq<u8>>,
    ReleaseError,
>
    decreases inputs.len(),
{
    if inputs.len() == 0 {
        Ok(Seq::empty())
    } else {
        match spec_package_candidate(inputs[0], pre) {
            Err(e) => Err(e),
            Ok(None) => spec_monorepo_dry(inputs.skip(1), pre),
            Ok(Some(cand)) => (match spec_monorepo_dry(inputs.skip(1), pre) {
                Err(e) => Err(e),
                Ok(rest) => Ok(seq![display_of(cand)] + rest),
            }),
        }
    }
}

/// Every package's automatic bump stays within machine range.
pub open spec fn monorepo_fits(inputs: Seq<PackageInputView>) -> bool {
    forall|k: int|
        0 <= k < inputs.len() ==> bump_fits(
            baseline_of((#[trigger] inputs[k]).current, Some(inputs[k].name)),
            VersionIncrement::Auto,
            inputs[k].commits,
        )
}

/// The bytes of `"chore(version): Bump"`, the single aggregate commit
/// message of a multi-package release.
pub open spec fn monorepo_commit_message() -> Seq<u8> {
    chore_prefix() + seq![66u8, 117u8, 109u8, 112u8]
}

/// The whole multi-package plan: the accumulated records and the one
/// aggregate commit that every package's tag will anchor to.
pub struct MonorepoPlan {
    pub records: Vec<PackageBumpRecord>,
    pub commit_message: Vec<u8>,
    pub sign: bool,
}

/// What planning a multi-package release yields: the candidates' tag texts
/// on a dry run, else the plan.
pub enum MonorepoOutcome {
    DryRun(Vec<Vec<u8>>),
    Planned(MonorepoPlan),
}

fn package_candidate(pkg: &PackageInput, pre_release: Option<&[u8]>) -> (r: Result<
    Option<Tag>,
    ReleaseError,
>)
    requires
        bump_fits(
            baseline_of(pkg@.current, Some(pkg@.name)),
            VersionIncrement::Auto,
            pkg@.commits,
        ),
    ensures
        (match spec_package_candidate(
            pkg@,
            (match pre_release {
                Some(p) => Some(p@),
                None => None,
            }),
        ) {
            Err(e) => r matches Err(e2) && e2 == e,
            Ok(None) => r matches Ok(o) && o is None,
            Ok(Some(cand)) => r matches Ok(o) && o matches Some(t) && t@ == cand,
        }),
{
    let base: Tag = match pkg.current {
        Some(ref t) => t.clone(),
        None => {
            let mut d = Tag::default();
            d.package = Some(crate::text::clone_vec_u8(&pkg.name));
            d
        },
    };
    proof {
        assert(base@ =~~= baseline_of(pkg@.current, Some(pkg@.name)));
    }
    let cand: Tag = match base.bump(VersionIncrement::Auto, &pkg.commits) {
        Ok(t) => t,
        Err(e) => {
            if e == BumpError::NoQualifyingCommit {
                return Ok(None);
            }
            return Err(ReleaseError::Bump(e));
        },
    };
    let cand: Tag = match pre_release {
        Some(p) => {
            match cand.with_pre_release(p) {
                Ok(t) => {
                    proof {
                        assert(t@ =~~= (TagView {
                            version: SemVerView { pre: p@, ..cand@.version },
                            ..cand@
                        }));
                    }
                    t
                },
                Err(e) => { return Err(ReleaseError::Bump(e)); },
            }
        },
        None => cand,
    };
    if !base.version.lt(&cand.version) {
        return Err(ReleaseError::NonMonotonicVersion);
    }
    Ok(Some(cand))
}

fn plan_one_package(
    settings: &Settings,
    pkg: &PackageInput,
    pre_release: Option<&[u8]>,
    hook_profile: Option<&[u8]>,
) -> (r: Result<Option<PackageBumpRecord>, ReleaseError>)
    requires
        bump_fits(
            baseline_of(pkg@.current, Some(pkg@.name)),
            VersionIncrement::Auto,
            pkg@.commits,
        ),
    ensures
        (match spec_package_record(
            settings@,
            pkg@,
            (match pre_release {
                Some(p) => Some(p@),
                None => None,
            }),
            (match hook_profile {
                Some(p) => Some(p@),
                None => None,
            }),
        ) {
            Err(e) => r matches Err(e2) && e2 == e,
            Ok(None) => r matches Ok(o) && o is None,
            Ok(Some(rec)) => r matches Ok(o) && o matches Some(record) && record@ == rec
                && record_well_formed(record),
        }),
{
    let cand: Tag = match package_candidate(pkg, pre_release) {
        Ok(Some(t)) => t,
        Ok(None) => { return Ok(None); },
        Err(e) => { return Err(e); },
    };
    let previous: Option<HookVersion> = match pkg.current {
        Some(ref t) => Some(HookVersion::new(t.clone())),
        None => None,
    };
    let marker = cand.clone();
    let next = HookVersion::new(cand);
    let pre_templates = settings.resolve_hooks(
        HookType::PreBump,
        Some(pkg.name.as_slice()),
        hook_profile,
    );
    let pre_cmds = match instantiate_all(pre_templates.as_slice(), previous.as_ref(), &next) {
        Ok(v) => v,
        Err(e) => { return Err(ReleaseError::Hook(e)); },
    };
    let post_templates = settings.resolve_hooks(
        HookType::PostBump,
        Some(pkg.name.as_slice()),
        hook_profile,
    );
    let post_cmds = match instantiate_all(post_templates.as_slice(), previous.as_ref(), &next) {
        Ok(v) => v,
        Err(e) => { return Err(ReleaseError::Hook(e)); },
    };
    let record = PackageBumpRecord {
        package: crate::text::clone_vec_u8(&pkg.name),
        previous,
        next,
        marker,
        pre_hooks: pre_cmds,
        post_hooks: post_cmds,
    };
    Ok(Some(record))
}

fn plan_packages(
    settings: &Settings,
    inputs: &[PackageInput],
    pre_release: Option<&[u8]>,
    hook_profile: Option<&[u8]>,
) -> (r: Result<Vec<PackageBumpRecord>, ReleaseError>)
    requires
        monorepo_fits(package_input_views(inputs@)),
    ensures
        (match spec_monorepo_records(
            settings@,
            package_input_views(inputs@),
            (match pre_release {
                Some(p) => Some(p@),
                None => None,
            }),
            (match hook_profile {
                Some(p) => Some(p@),
                None => None,
            }),
        ) {
            Err(e) => r matches Err(e2) && e2 == e,
            Ok(recs) => r matches Ok(v) && record_views(v@) == recs && (forall|k: int|
                0 <= k < v@.len() ==> record_well_formed(#[trigger] v@[k])),
        }),
    decreases inputs@.len(),
{
    let ghost views = package_input_views(inputs@);
    if inputs.len() == 0 {
        let out: Vec<PackageBumpRecord> = Vec::new();
        proof {
            assert(record_views(out@) =~= Seq::<RecordView>::empty());
        }
        return Ok(out);
    }
    let head = vstd::slice::slice_index_get(inputs, 0);
    proof {
        assert(views[0] == head@);
    }
    let tail = vstd::slice::slice_subrange(inputs, 1, inputs.len());
    proof {
        assert(package_input_views(tail@) =~= views.skip(1));
    }
    match plan_one_package(settings, head, pre_release, hook_profile) {
        Err(e) => Err(e),
        Ok(None) => plan_packages(settings, tail, pre_release, hook_profile),
        Ok(Some(record)) => {
            match plan_packages(settings, tail, pre_release, hook_profile) {
                Err(e) => Err(e),
                Ok(mut rest) => {
                    let ghost rest0 = rest@;
                    let ghost recv = record@;
                    rest.insert(0, record);
                    proof {
                        assert(record_views(rest@) =~= seq![recv] + record_views(rest0));
                        assert(forall|k: int|
                            0 <= k < rest@.len() ==> record_well_formed(#[trigger] rest@[k]));
                    }
                    Ok(rest)
                },
            }
        },
    }
}

fn dry_displays(inputs: &[PackageInput], pre_release: Option<&[u8]>) -> (r: Result<
    Vec<Vec<u8>>,
    ReleaseError,
>)
    requires
        monorepo_fits(package_input_views(inputs@)),
    ensures
        (match spec_monorepo_dry(
            package_input_views(inputs@),
            (match pre_release {
                Some(p) => Some(p@),
                None => None,
            }),
        ) {
            Err(e) => r matches Err(e2) && e2 == e,
            Ok(ds) => r matches Ok(v) && texts(v@) == ds,
        }),
    decreases inputs@.len(),
{
    let ghost views = package_input_views(inputs@);
    if inputs.len() == 0 {
        let out: Vec<Vec<u8>> = Vec::new();
        proof {
            assert(texts(out@) =~= Seq::<Seq<u8>>::empty());
        }
        return Ok(out);
    }
    let head = vstd::slice::slice_index_get(inputs, 0);
    proof {
        assert(views[0] == head@);
    }
    let tail = vstd::slice::slice_subrange(inputs, 1, inputs.len());
    proof {
        assert(package_input_views(tail@) =~= views.skip(1));
    }
    match package_candidate(head, pre_release) {
        Err(e) => Err(e),
        Ok(None) => dry_displays(tail, pre_release),
        Ok(Some(cand)) => {
            match dry_displays(tail, pre_release) {
                Err(e) => Err(e),
                Ok(mut rest) => {
                    let out = cand.display_tag();
                    let ghost rest0 = rest@;
                    let ghost outv = out@;
                    rest.insert(0, out);
                    proof {
                        assert(texts(rest@) =~= seq![outv] + texts(rest0));
                    }
                    Ok(rest)
                },
            }
        },
    }
}

/// Plans a multi-package release: the preflight checks run once; every
/// package is independently resolved, guarded and parameterized; packages
/// whose window justifies nothing are skipped; any failure aborts the whole
/// operation with no plan at all. The plan defers commit creation: all
/// packages' staged changes belong to the one aggregate commit, created
/// after every package's pre-bump phase, so that every package's tag anchors
/// to that same commit.
pub fn plan_monorepo_release(
    settings: &Settings,
    working_tree_clean: bool,
    branch: Option<&[u8]>,
    packages: &Vec<PackageInput>,
    pre_release: Option<&[u8]>,
    hook_profile: Option<&[u8]>,
    dry_run: bool,
) -> (r: Result<MonorepoOutcome, ReleaseError>)
    requires
        monorepo_fits(package_input_views(packages@)),
    ensures
        ({
            let views = package_input_views(packages@);
            let branch_v = match branch {
                Some(b) => Some(b@),
                None => None,
            };
            let pre_v = match pre_release {
                Some(p) => Some(p@),
                None => None,
            };
            let prof_v = match hook_profile {
                Some(p) => Some(p@),
                None => None,
            };
            if !working_tree_clean {
                r matches Err(e) && e == ReleaseError::DirtyWorkingTree
            } else if !branch_allowed(settings@.whitelist, branch_v) {
                r matches Err(e) && e == ReleaseError::BranchNotAllowed
            } else if dry_run {
                match spec_monorepo_dry(views, pre_v) {
                    Err(e) => r matches Err(e2) && e2 == e,
                    Ok(ds) => r matches Ok(o) && o matches MonorepoOutcome::DryRun(v) && texts(v@)
                        == ds,
                }
            } else {
                match spec_monorepo_records(settings@, views, pre_v, prof_v) {
                    Err(e) => r matches Err(e2) && e2 == e,
                    Ok(recs) => r matches Ok(o) && o matches MonorepoOutcome::Planned(p)
                        && record_views(p.records@) == recs && (forall|k: int|
                        0 <= k < p.records@.len() ==> record_well_formed(#[trigger] p.records@[k]))
                        && p.commit_message@ == monorepo_commit_message() && p.sign
                        == settings@.sign,
                }
            }
        }),
{
    match pre_bump_checks(settings, working_tree_clean, branch) {
        Err(e) => { return Err(e); },
        Ok(()) => {},
    }
    if dry_run {
        match dry_displays(packages.as_slice(), pre_release) {
            Err(e) => Err(e),
            Ok(v) => Ok(MonorepoOutcome::DryRun(v)),
        }
    } else {
        match plan_packages(settings, packages.as_slice(), pre_release, hook_profile) {
            Err(e) => Err(e),
            Ok(records) => {
                let mut commit_message = chore_prefix_bytes();
                commit_message.push(66);
                commit_message.push(117);
                commit_message.push(109);
                commit_message.push(112);
                proof {
                    assert(commit_message@ =~= monorepo_commit_message());
                }
                Ok(
                    MonorepoOutcome::Planned(
                        MonorepoPlan { records, commit_message, sign: settings.sign },
                    ),
                )
            },
        }
    }
}

/// The structured record of the rollback path: when a pre-bump hook fails,
/// the staged work is preserved under a stash naming the candidate marker,
/// the record is reported, and the process ends with a non-zero status
/// instead of completing the release.
pub struct PreHookError {
    pub cause: HookError,
    pub version: Vec<u8>,
    pub stash_number: u64,
}

/// Builds the rollback record for an aborted release: it names the failed
/// candidate marker whose staged work the caller stashes before
/// terminating. This is deliberately not a full undo: it trades automatic
/// cleanup for operator-inspectable recovery.
pub fn rollback_report(tag: &Tag, cause: HookError) -> (r: PreHookError)
    ensures
        r.version@ == display_of(tag@),
        r.cause == cause,
        r.stash_number == 0,
{
    PreHookError { cause, version: tag.display_tag(), stash_number: 0 }
}

/// No candidate at or below the current version passes the monotonic guard:
/// the planners demand a candidate strictly above the baseline, so for every
/// pair with the candidate at or below the current version they return an
/// error and plan no commit, no tag and no hook.
pub proof fn lemma_nonmonotonic_candidate_rejected(cur: TagView, cand: TagView)
    requires
        semver_le(cand.version, cur.version),
    ensures
        !semver_lt(cur.version, cand.version),
{
    crate::version::lemma_le_excludes_lt(cur.version, cand.version);
}

} // verus!
