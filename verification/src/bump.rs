//! Resolution of the next version marker from a bump request.
//!
//! An arithmetic request raises one numeric field, zeroes the lower ones and
//! clears pre-release and build metadata. A manual request takes any
//! syntactically valid semantic version text, whatever the current version
//! is. An automatic request drops merge commits from the given window,
//! classifies the rest and applies the resulting level. Every derived marker
//! loses its backend anchor; no resolution checks monotonicity itself — the
//! orchestrator applies that guard uniformly to every request kind.

use vstd::prelude::*;
use crate::commit::BumpDecision;
use crate::commit::ClassifiedCommit;
use crate::commit::CommitView;
use crate::commit::commit_views;
use crate::commit::spec_classify;
use crate::commit::window_of;
use crate::tag::Tag;
use crate::tag::TagView;
use crate::version::SemVer;
use crate::version::SemVerView;
use crate::version::ident_end;
use crate::version::is_digits;
use crate::version::lemma_ident_end_bounds;

verus! {

/// A bump request: an explicit level, automatic classification, or an
/// explicit version text.
#[derive(Debug)]
pub enum VersionIncrement {
    Major,
    Minor,
    Patch,
    Auto,
    Manual(String),
}

/// Why a resolution failed.
#[derive(Clone, Copy, Debug, PartialEq, Eq, Structural)]
pub enum BumpError {
    /// Automatic resolution found no commit that justifies any bump level.
    NoQualifyingCommit,
    /// Manual version text or pre-release text is not valid.
    InvalidVersion,
}

/// The marker an arithmetic bump of `t` at level `d` yields.
pub open spec fn spec_arith_bump(t: TagView, d: BumpDecision) -> TagView {
    TagView {
        version: (match d {
            BumpDecision::Major => SemVerView {
                major: t.version.major + 1,
                minor: 0,
                patch: 0,
                pre: Seq::empty(),
                build: Seq::empty(),
            },
            BumpDecision::Minor => SemVerView {
                major: t.version.major,
                minor: t.version.minor + 1,
                patch: 0,
                pre: Seq::empty(),
                build: Seq::empty(),
            },
            BumpDecision::Patch => SemVerView {
                major: t.version.major,
                minor: t.version.minor,
                patch: t.version.patch + 1,
                pre: Seq::empty(),
                build: Seq::empty(),
            },
        }),
        package: t.package,
        oid: None,
    }
}

/// Every arithmetic bump leaves the pre-release and build metadata empty and
/// the backend anchor unset, and keeps the package scope, whatever the
/// current marker and whichever level was applied.
pub proof fn lemma_arith_bump_resets(t: TagView, d: BumpDecision)
    ensures
        spec_arith_bump(t, d).version.pre == Seq::<u8>::empty(),
        spec_arith_bump(t, d).version.build == Seq::<u8>::empty(),
        spec_arith_bump(t, d).oid is None,
        spec_arith_bump(t, d).package == t.package,
{
}

/// What resolution yields for a request over a baseline marker and a raw
/// commit window (merge commits still included): arithmetic requests bump
/// their field, an automatic request applies what the filtered window
/// classifies as, a manual request takes exactly the parsed version text —
/// independent of the baseline's version. Every outcome keeps the baseline's
/// package scope and is unanchored.
pub open spec fn spec_resolve_marker(
    base: TagView,
    increment: VersionIncrement,
    commits: Seq<CommitView>,
) -> Result<TagView, BumpError> {
    match increment {
        VersionIncrement::Major => Ok(spec_arith_bump(base, BumpDecision::Major)),
        VersionIncrement::Minor => Ok(spec_arith_bump(base, BumpDecision::Minor)),
        VersionIncrement::Patch => Ok(spec_arith_bump(base, BumpDecision::Patch)),
        VersionIncrement::Auto => (match spec_classify(base.version.major, window_of(commits)) {
            Some(d) => Ok(spec_arith_bump(base, d)),
            None => Err(BumpError::NoQualifyingCommit),
        }),
        VersionIncrement::Manual(text) => (match parsed_version(text@) {
            Some(p) => Ok(
                TagView {
                    version: SemVerView {
                        major: p.0 as int,
                        minor: p.1 as int,
                        patch: p.2 as int,
                        pre: p.3,
                        build: p.4,
                    },
                    package: base.package,
                    oid: None,
                },
            ),
            None => Err(BumpError::InvalidVersion),
        }),
    }
}

/// The arithmetic field that a request raises must stay within machine
/// range; requests that raise nothing are never constrained.
pub open spec fn bump_fits(base: TagView, increment: VersionIncrement, commits: Seq<CommitView>)
    -> bool {
    match increment {
        VersionIncrement::Major => base.version.major < u64::MAX,
        VersionIncrement::Minor => base.version.minor < u64::MAX,
        VersionIncrement::Patch => base.version.patch < u64::MAX,
        VersionIncrement::Auto => (match spec_classify(base.version.major, window_of(commits)) {
            Some(BumpDecision::Major) => base.version.major < u64::MAX,
            Some(BumpDecision::Minor) => base.version.minor < u64::MAX,
            Some(BumpDecision::Patch) => base.version.patch < u64::MAX,
            None => true,
        }),
        VersionIncrement::Manual(_) => true,
    }
}

/// A manual request is resolved from its version text alone: whether it is
/// accepted, and what it yields, never depends on the baseline's version or
/// on the commit window — only the monotonic guard, applied uniformly
/// afterwards by the orchestrator, relates it to the current version.
pub proof fn lemma_manual_ignores_current(
    a: TagView,
    b: TagView,
    text: String,
    c1: Seq<CommitView>,
    c2: Seq<CommitView>,
)
    requires
        a.package == b.package,
    ensures
        spec_resolve_marker(a, VersionIncrement::Manual(text), c1) == spec_resolve_marker(
            b,
            VersionIncrement::Manual(text),
            c2,
        ),
{
}

/// What `semver::Version::parse` makes of version text: `None` when the text
/// is not a valid semantic version, else the numeric triple and the raw
/// bytes of the pre-release and build identifiers.
pub uninterp spec fn parsed_version(s: Seq<char>) -> Option<(u64, u64, u64, Seq<u8>, Seq<u8>)>;

/// Relies on `semver::Version::parse`: whether version text parses, and into
/// which fields, depends on the text alone.
#[verifier::external_body]
fn parse_version(version: &str) -> (r: Option<SemVer>)
    ensures
        (match r {
            Some(v) => parsed_version(version@) matches Some(p) && v.major == p.0 && v.minor == p.1
                && v.patch == p.2 && v.pre@ == p.3 && v.build@ == p.4,
            None => parsed_version(version@) is None,
        }),
{
    match semver::Version::parse(version) {
        Ok(v) => Some(
            SemVer {
                major: v.major,
                minor: v.minor,
                patch: v.patch,
                pre: v.pre.as_str().as_bytes().to_vec(),
                build: v.build.as_str().as_bytes().to_vec(),
            },
        ),
        Err(_) => None,
    }
}

/// A byte a pre-release identifier may hold: an ASCII digit, letter or
/// hyphen.
pub open spec fn pre_byte_ok(b: u8) -> bool {
    (48 <= b <= 57) || (65 <= b <= 90) || (97 <= b <= 122) || b == 45
}

/// One pre-release identifier: non-empty, over digits, letters and hyphens,
/// and carrying no leading zero when it consists of digits alone.
pub open spec fn pre_ident_ok(id: Seq<u8>) -> bool {
    &&& id.len() > 0
    &&& (forall|i: int| 0 <= i < id.len() ==> pre_byte_ok(#[trigger] id[i]))
    &&& ((is_digits(id) && id.len() > 1) ==> id[0] != 48)
}

/// A non-empty chain of dot-separated valid pre-release identifiers.
pub open spec fn pre_idents_ok(s: Seq<u8>) -> bool
    decreases s.len(),
    via pre_idents_ok_decreases
{
    let e = ident_end(s);
    &&& pre_ident_ok(s.take(e))
    &&& (e == s.len() || pre_idents_ok(s.skip(e + 1)))
}

#[via_fn]
proof fn pre_idents_ok_decreases(s: Seq<u8>) {
    lemma_ident_end_bounds(s);
}

/// The pre-release texts that the semantic-versioning grammar accepts: the
/// empty text, or dot-separated identifiers over ASCII digits, letters and
/// hyphens, where a digit-only identifier has no leading zero.
pub open spec fn prerelease_ok(s: Seq<u8>) -> bool {
    s.len() == 0 || pre_idents_ok(s)
}

/// Relies on `semver::Prerelease::new`: it accepts exactly the texts that
/// `prerelease_ok` describes, from the text alone. Bytes outside the
/// identifier alphabet — the only way the input can fail as UTF-8 — are
/// rejected on either path.
#[verifier::external_body]
fn check_prerelease(pre: &[u8]) -> (r: bool)
    ensures
        r == prerelease_ok(pre@),
{
    match core::str::from_utf8(pre) {
        Ok(text) => semver::Prerelease::new(text).is_ok(),
        Err(_) => false,
    }
}

impl Tag {
    /// Raises the major version, zeroing the lower fields.
    pub fn major_bump(&self) -> (r: Tag)
        requires
            self.version.major < u64::MAX,
        ensures
            r@ == spec_arith_bump(self@, BumpDecision::Major),
    {
        let mut r = self.clone();
        r.version.major = r.version.major + 1;
        r.version.minor = 0;
        r.version.patch = 0;
        r.version.pre = Vec::new();
        r.version.build = Vec::new();
        r.oid = None;
        r
    }

    /// Raises the minor version, zeroing the patch field.
    pub fn minor_bump(&self) -> (r: Tag)
        requires
            self.version.minor < u64::MAX,
        ensures
            r@ == spec_arith_bump(self@, BumpDecision::Minor),
    {
        let mut r = self.clone();
        r.version.minor = r.version.minor + 1;
        r.version.patch = 0;
        r.version.pre = Vec::new();
        r.version.build = Vec::new();
        r.oid = None;
        r
    }

    /// Raises the patch version.
    pub fn patch_bump(&self) -> (r: Tag)
        requires
            self.version.patch < u64::MAX,
        ensures
            r@ == spec_arith_bump(self@, BumpDecision::Patch),
    {
        let mut r = self.clone();
        r.version.patch = r.version.patch + 1;
        r.version.pre = Vec::new();
        r.version.build = Vec::new();
        r.oid = None;
        r
    }

    /// Replaces the version with explicitly given version text. Any
    /// syntactically valid semantic version is accepted, independent of the
    /// current version; the marker keeps its package scope and loses its
    /// backend anchor.
    pub fn manual_bump(&self, version: &str) -> (r: Result<Tag, BumpError>)
        ensures
            (match parsed_version(version@) {
                Some(p) => r matches Ok(t) && t@.version.major == p.0 as int && t@.version.minor
                    == p.1 as int && t@.version.patch == p.2 as int && t@.version.pre == p.3
                    && t@.version.build == p.4 && t@.package == self@.package && t@.oid is None,
                None => r matches Err(e) && e == BumpError::InvalidVersion,
            }),
    {
        match parse_version(version) {
            Some(v) => {
                let mut t = self.clone();
                t.version = v;
                t.oid = None;
                Ok(t)
            },
            None => Err(BumpError::InvalidVersion),
        }
    }

    /// Attaches pre-release text to this marker's version, if the text is
    /// valid pre-release syntax; the rest of the marker is unchanged.
    pub fn with_pre_release(&self, pre: &[u8]) -> (r: Result<Tag, BumpError>)
        ensures
            (if prerelease_ok(pre@) {
                r matches Ok(t) && t@.version.major == self@.version.major && t@.version.minor
                    == self@.version.minor && t@.version.patch == self@.version.patch
                    && t@.version.pre == pre@ && t@.version.build == self@.version.build
                    && t@.package == self@.package && t@.oid == self@.oid
            } else {
                r matches Err(e) && e == BumpError::InvalidVersion
            }),
    {
        if check_prerelease(pre) {
            let mut t = self.clone();
            t.version.pre = crate::text::slice_to_bytes(pre);
            Ok(t)
        } else {
            Err(BumpError::InvalidVersion)
        }
    }

    /// Classifies a commit window — merge commits already excluded by the
    /// caller — against this marker's major version.
    pub fn version_increment_from_commit_history(&self, commits: &Vec<ClassifiedCommit>) -> (r:
        Result<BumpDecision, BumpError>)
        ensures
            (match spec_classify(self@.version.major, commit_views(commits@)) {
                Some(d) => r matches Ok(rd) && rd == d,
                None => r matches Err(e) && e == BumpError::NoQualifyingCommit,
            }),
    {
        match crate::commit::classify(self.version.major, commits) {
            Some(d) => Ok(d),
            None => Err(BumpError::NoQualifyingCommit),
        }
    }

    /// Resolves the marker that `increment` yields from this one. `commits`
    /// is the raw commit window for automatic resolution; merge commits are
    /// dropped before classification.
    pub fn bump(&self, increment: VersionIncrement, commits: &Vec<ClassifiedCommit>) -> (r: Result<
        Tag,
        BumpError,
    >)
        requires
            bump_fits(self@, increment, commit_views(commits@)),
        ensures
            (match r {
                Ok(t) => spec_resolve_marker(self@, increment, commit_views(commits@)) == Ok::<
                    TagView,
                    BumpError,
                >(t@),
                Err(e) => spec_resolve_marker(self@, increment, commit_views(commits@))
                    == Err::<TagView, BumpError>(e),
            }),
    {
        match increment {
            VersionIncrement::Major => Ok(self.major_bump()),
            VersionIncrement::Minor => Ok(self.minor_bump()),
            VersionIncrement::Patch => Ok(self.patch_bump()),
            VersionIncrement::Auto => {
                let window = crate::commit::drop_merge_commits(commits);
                match self.version_increment_from_commit_history(&window) {
                    Ok(BumpDecision::Major) => Ok(self.major_bump()),
                    Ok(BumpDecision::Minor) => Ok(self.minor_bump()),
                    Ok(BumpDecision::Patch) => Ok(self.patch_bump()),
                    Err(e) => Err(e),
                }
            },
            VersionIncrement::Manual(text) => {
                let rm = self.manual_bump(text.as_str());
                proof {
                    match parsed_version(text@) {
                        Some(p) => {
                            assert(rm matches Ok(t) ==> t@ =~~= (TagView {
                                version: SemVerView {
                                    major: p.0 as int,
                                    minor: p.1 as int,
                                    patch: p.2 as int,
                                    pre: p.3,
                                    build: p.4,
                                },
                                package: self@.package,
                                oid: None,
                            }));
                        },
                        None => {},
                    }
                }
                rm
            },
        }
    }
}

} // verus!
