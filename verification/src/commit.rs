//! Classified commits and the window classifier.
//!
//! A commit arrives already parsed into its kind, optional scope and raw
//! summary line. Over a window of such commits and the current major version,
//! the classifier picks the bump that the window justifies, by priority:
//! a breaking commit forces a major bump unless the current major version is
//! zero (a `0.x` line is understood as unstable, so pre-stable breaking
//! changes carry no signal of their own); otherwise a feature commit yields a
//! minor bump; otherwise a bug fix yields a patch bump; otherwise the window
//! justifies nothing.

use vstd::prelude::*;

verus! {

/// What a parsed commit announces.
#[derive(Clone, Copy, Debug, PartialEq, Eq, Structural)]
pub enum CommitKind {
    Feature,
    BugFix,
    Breaking,
    Other,
}

/// The outcome of automatic resolution: always a definite level.
#[derive(Clone, Copy, Debug, PartialEq, Eq, Structural)]
pub enum BumpDecision {
    Major,
    Minor,
    Patch,
}

/// A commit as the excluded message parser hands it over: kind, optional
/// scope, and the raw summary line.
pub struct ClassifiedCommit {
    pub kind: CommitKind,
    pub scope: Option<Vec<u8>>,
    pub raw_summary: Vec<u8>,
}

/// The mathematical model of a `ClassifiedCommit`.
#[verifier::ext_equal]
pub ghost struct CommitView {
    pub kind: CommitKind,
    pub scope: Option<Seq<u8>>,
    pub summary: Seq<u8>,
}

impl View for ClassifiedCommit {
    type V = CommitView;

    open spec fn view(&self) -> CommitView {
        CommitView {
            kind: self.kind,
            scope: match self.scope {
                Some(ref s) => Some(s@),
                None => None,
            },
            summary: self.raw_summary@,
        }
    }
}

/// The models of a sequence of commits.
pub open spec fn commit_views(s: Seq<ClassifiedCommit>) -> Seq<CommitView> {
    s.map(|i: int, c: ClassifiedCommit| c@)
}

pub open spec fn has_breaking(s: Seq<CommitView>) -> bool {
    exists|i: int| 0 <= i < s.len() && (#[trigger] s[i]).kind is Breaking
}

pub open spec fn has_feature(s: Seq<CommitView>) -> bool {
    exists|i: int| 0 <= i < s.len() && (#[trigger] s[i]).kind is Feature
}

pub open spec fn has_bugfix(s: Seq<CommitView>) -> bool {
    exists|i: int| 0 <= i < s.len() && (#[trigger] s[i]).kind is BugFix
}

/// The classification rule, first match wins: breaking commits force a major
/// bump only past major version zero; then features, then bug fixes; an
/// unqualifying window yields nothing.
pub open spec fn spec_classify(major: int, s: Seq<CommitView>) -> Option<BumpDecision> {
    if major != 0 && has_breaking(s) {
        Some(BumpDecision::Major)
    } else if has_feature(s) {
        Some(BumpDecision::Minor)
    } else if has_bugfix(s) {
        Some(BumpDecision::Patch)
    } else {
        None
    }
}

/// The bytes of `"Merge "`, the prefix that marks a merge commit summary.
pub open spec fn merge_prefix() -> Seq<u8> {
    seq![77u8, 101u8, 114u8, 103u8, 101u8, 32u8]
}

/// A commit summary that names a merge.
pub open spec fn is_merge(summary: Seq<u8>) -> bool {
    summary.len() >= 6 && summary.take(6) == merge_prefix()
}

/// The commit window with merge commits dropped, in order.
pub open spec fn window_of(s: Seq<CommitView>) -> Seq<CommitView>
    decreases s.len(),
{
    if s.len() == 0 {
        Seq::empty()
    } else {
        let rest = window_of(s.drop_last());
        if is_merge(s.last().summary) {
            rest
        } else {
            rest.push(s.last())
        }
    }
}

impl Clone for ClassifiedCommit {
    fn clone(&self) -> (r: Self)
        ensures
            r@ == self@,
    {
        let r = ClassifiedCommit {
            kind: self.kind,
            scope: crate::text::clone_opt_bytes(&self.scope),
            raw_summary: crate::text::clone_vec_u8(&self.raw_summary),
        };
        proof {
            assert(r@ =~= self@);
        }
        r
    }
}

/// Tests whether a summary line names a merge commit.
pub fn is_merge_summary(summary: &[u8]) -> (r: bool)
    ensures
        r == is_merge(summary@),
{
    if summary.len() < 6 {
        return false;
    }
    let mut pref: Vec<u8> = Vec::new();
    pref.push(77);
    pref.push(101);
    pref.push(114);
    pref.push(103);
    pref.push(101);
    pref.push(32);
    proof {
        assert(pref@ =~= merge_prefix());
    }
    let head = vstd::slice::slice_subrange(summary, 0, 6);
    let r = crate::text::bytes_eq(head, pref.as_slice());
    proof {
        assert(summary@.subrange(0, 6) =~= summary@.take(6));
    }
    r
}

/// How adding one commit to a window changes what the window holds.
proof fn lemma_signal_step(s: Seq<CommitView>, i: int)
    requires
        0 <= i < s.len(),
    ensures
        has_breaking(s.take(i + 1)) == (has_breaking(s.take(i)) || s[i].kind is Breaking),
        has_feature(s.take(i + 1)) == (has_feature(s.take(i)) || s[i].kind is Feature),
        has_bugfix(s.take(i + 1)) == (has_bugfix(s.take(i)) || s[i].kind is BugFix),
{
    assert(forall|j: int| 0 <= j < i + 1 ==> #[trigger] s.take(i + 1)[j] == s[j]);
    assert(forall|j: int| 0 <= j < i ==> #[trigger] s.take(i)[j] == s[j]);
    if has_breaking(s.take(i + 1)) {
        let j = choose|j: int| 0 <= j < i + 1 && (#[trigger] s.take(i + 1)[j]).kind is Breaking;
        if j < i {
            assert(s.take(i)[j].kind is Breaking);
        }
    }
    if has_breaking(s.take(i)) {
        let j = choose|j: int| 0 <= j < i && (#[trigger] s.take(i)[j]).kind is Breaking;
        assert(s.take(i + 1)[j].kind is Breaking);
    }
    if s[i].kind is Breaking {
        assert(s.take(i + 1)[i].kind is Breaking);
    }
    if has_feature(s.take(i + 1)) {
        let j = choose|j: int| 0 <= j < i + 1 && (#[trigger] s.take(i + 1)[j]).kind is Feature;
        if j < i {
            assert(s.take(i)[j].kind is Feature);
        }
    }
    if has_feature(s.take(i)) {
        let j = choose|j: int| 0 <= j < i && (#[trigger] s.take(i)[j]).kind is Feature;
        assert(s.take(i + 1)[j].kind is Feature);
    }
    if s[i].kind is Feature {
        assert(s.take(i + 1)[i].kind is Feature);
    }
    if has_bugfix(s.take(i + 1)) {
        let j = choose|j: int| 0 <= j < i + 1 && (#[trigger] s.take(i + 1)[j]).kind is BugFix;
        if j < i {
            assert(s.take(i)[j].kind is BugFix);
        }
    }
    if has_bugfix(s.take(i)) {
        let j = choose|j: int| 0 <= j < i && (#[trigger] s.take(i)[j]).kind is BugFix;
        assert(s.take(i + 1)[j].kind is BugFix);
    }
    if s[i].kind is BugFix {
        assert(s.take(i + 1)[i].kind is BugFix);
    }
}

/// Drops merge commits from a window, keeping the order of the rest.
pub fn drop_merge_commits(commits: &Vec<ClassifiedCommit>) -> (r: Vec<ClassifiedCommit>)
    ensures
        commit_views(r@) == window_of(commit_views(commits@)),
{
    let n = commits.len();
    let mut out: Vec<ClassifiedCommit> = Vec::new();
    let mut i: usize = 0;
    while i < n
        invariant
            n == commits@.len(),
            i <= n,
            commit_views(out@) == window_of(commit_views(commits@.take(i as int))),
        decreases n - i,
    {
        proof {
            assert(commit_views(commits@.take(i + 1)).drop_last() =~= commit_views(
                commits@.take(i as int),
            ));
            assert(commit_views(commits@.take(i + 1)).last() == commits@[i as int]@);
        }
        let ghost out0 = out@;
        if !is_merge_summary(commits[i].raw_summary.as_slice()) {
            let c = commits[i].clone();
            out.push(c);
            proof {
                assert(commit_views(out@) =~= commit_views(out0).push(commits@[i as int]@));
            }
        }
        proof {
            assert(commit_views(out@) =~= window_of(commit_views(commits@.take(i + 1))));
        }
        i += 1;
    }
    proof {
        assert(commits@.take(n as int) =~= commits@);
    }
    out
}

/// Classifies a window of commits against the current major version.
pub fn classify(major: u64, commits: &Vec<ClassifiedCommit>) -> (r: Option<BumpDecision>)
    ensures
        r == spec_classify(major as int, commit_views(commits@)),
{
    let ghost s = commit_views(commits@);
    let n = commits.len();
    let mut brk = false;
    let mut feat = false;
    let mut fix = false;
    let mut i: usize = 0;
    while i < n
        invariant
            n == commits@.len(),
            i <= n,
            s == commit_views(commits@),
            brk == has_breaking(s.take(i as int)),
            feat == has_feature(s.take(i as int)),
            fix == has_bugfix(s.take(i as int)),
        decreases n - i,
    {
        proof {
            lemma_signal_step(s, i as int);
        }
        match commits[i].kind {
            CommitKind::Breaking => {
                brk = true;
            },
            CommitKind::Feature => {
                feat = true;
            },
            CommitKind::BugFix => {
                fix = true;
            },
            CommitKind::Other => {},
        }
        proof {
            assert(s[i as int] == commits@[i as int]@);
        }
        i += 1;
    }
    proof {
        assert(s.take(n as int) =~= s);
    }
    if major != 0 && brk {
        Some(BumpDecision::Major)
    } else if feat {
        Some(BumpDecision::Minor)
    } else if fix {
        Some(BumpDecision::Patch)
    } else {
        None
    }
}

/// A window holding a breaking commit, with the current major version past
/// zero, always classifies as a major bump, whatever else the window holds.
pub proof fn lemma_breaking_forces_major(major: int, s: Seq<CommitView>)
    requires
        major != 0,
        has_breaking(s),
    ensures
        spec_classify(major, s) == Some(BumpDecision::Major),
{
}

/// Before `1.0.0`, a window whose only signal is breaking commits classifies
/// as nothing at all: the pre-stable convention withholds the major bump
/// rather than silently substituting another level.
pub proof fn lemma_pre_stable_breaking_yields_nothing(s: Seq<CommitView>)
    requires
        has_breaking(s),
        !has_feature(s),
        !has_bugfix(s),
    ensures
        spec_classify(0, s) is None,
{
}

} // verus!
