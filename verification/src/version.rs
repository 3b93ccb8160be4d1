//! Semantic versions as plain values, and their precedence order.
//!
//! A version holds its three numeric fields and the raw bytes of its
//! pre-release and build identifiers. Precedence follows the semantic
//! versioning rules: the numeric triple first; a pre-release sorts below the
//! plain release; pre-release identifier lists compare dot-separated
//! identifier by identifier, digit-only identifiers numerically (equivalent,
//! absent leading zeros, to length-then-lexicographic order) and below any
//! identifier with letters, the rest in ASCII lexicographic order. Build
//! metadata never takes part in the order.

use vstd::prelude::*;
use vstd::slice::slice_index_get;
use vstd::slice::slice_subrange;

verus! {

/// A semantic version: numeric fields plus the raw bytes of the pre-release
/// and build identifiers (empty bytes meaning "absent").
pub struct SemVer {
    pub major: u64,
    pub minor: u64,
    pub patch: u64,
    pub pre: Vec<u8>,
    pub build: Vec<u8>,
}

/// The mathematical model of a `SemVer`.
#[verifier::ext_equal]
pub ghost struct SemVerView {
    pub major: int,
    pub minor: int,
    pub patch: int,
    pub pre: Seq<u8>,
    pub build: Seq<u8>,
}

impl View for SemVer {
    type V = SemVerView;

    open spec fn view(&self) -> SemVerView {
        SemVerView {
            major: self.major as int,
            minor: self.minor as int,
            patch: self.patch as int,
            pre: self.pre@,
            build: self.build@,
        }
    }
}

/// Every byte of `s` is an ASCII digit.
pub open spec fn is_digits(s: Seq<u8>) -> bool {
    forall|i: int| 0 <= i < s.len() ==> 48 <= #[trigger] s[i] <= 57
}

/// ASCII lexicographic order on byte sequences.
pub open spec fn lex_lt(a: Seq<u8>, b: Seq<u8>) -> bool
    decreases a.len() + b.len(),
{
    if b.len() == 0 {
        false
    } else if a.len() == 0 {
        true
    } else if a[0] < b[0] {
        true
    } else if a[0] > b[0] {
        false
    } else {
        lex_lt(a.skip(1), b.skip(1))
    }
}

/// Order on single pre-release identifiers: digit-only identifiers compare
/// numerically (length, then lexicographically) and sort below identifiers
/// with letters or hyphens, which compare in ASCII order.
pub open spec fn ident_lt(a: Seq<u8>, b: Seq<u8>) -> bool {
    if is_digits(a) && is_digits(b) {
        a.len() < b.len() || (a.len() == b.len() && lex_lt(a, b))
    } else if is_digits(a) {
        true
    } else if is_digits(b) {
        false
    } else {
        lex_lt(a, b)
    }
}

/// Length of the first dot-separated identifier of `s` (the index of the
/// first `.`, or the whole length if there is none).
pub open spec fn ident_end(s: Seq<u8>) -> int
    decreases s.len(),
{
    if s.len() == 0 {
        0
    } else if s[0] == 46 {
        0
    } else {
        1 + ident_end(s.skip(1))
    }
}

pub proof fn lemma_ident_end_bounds(s: Seq<u8>)
    ensures
        0 <= ident_end(s) <= s.len(),
    decreases s.len(),
{
    if s.len() != 0 && s[0] != 46 {
        lemma_ident_end_bounds(s.skip(1));
    }
}

/// Order on whole pre-release identifier lists, identifier by identifier; a
/// list that is a strict prefix of another sorts below it.
pub open spec fn pre_lt(a: Seq<u8>, b: Seq<u8>) -> bool
    decreases a.len(),
    via pre_lt_decreases
{
    let ea = ident_end(a);
    let eb = ident_end(b);
    let ha = a.take(ea);
    let hb = b.take(eb);
    if ident_lt(ha, hb) {
        true
    } else if ident_lt(hb, ha) {
        false
    } else if ea == a.len() && eb == b.len() {
        false
    } else if ea == a.len() {
        true
    } else if eb == b.len() {
        false
    } else {
        pre_lt(a.skip(ea + 1), b.skip(eb + 1))
    }
}

#[via_fn]
proof fn pre_lt_decreases(a: Seq<u8>, b: Seq<u8>) {
    lemma_ident_end_bounds(a);
    lemma_ident_end_bounds(b);
}

/// Strict numeric order on the `(major, minor, patch)` triple.
pub open spec fn triple_lt(a: SemVerView, b: SemVerView) -> bool {
    a.major < b.major || (a.major == b.major && (a.minor < b.minor || (a.minor == b.minor
        && a.patch < b.patch)))
}

pub open spec fn triple_eq(a: SemVerView, b: SemVerView) -> bool {
    a.major == b.major && a.minor == b.minor && a.patch == b.patch
}

/// Strict semantic-version precedence.
pub open spec fn semver_lt(a: SemVerView, b: SemVerView) -> bool {
    triple_lt(a, b) || (triple_eq(a, b) && ((a.pre.len() > 0 && b.pre.len() == 0) || (a.pre.len()
        > 0 && b.pre.len() > 0 && pre_lt(a.pre, b.pre))))
}

/// Equal precedence: build metadata is ignored.
pub open spec fn prec_eq(a: SemVerView, b: SemVerView) -> bool {
    triple_eq(a, b) && a.pre == b.pre
}

pub open spec fn semver_le(a: SemVerView, b: SemVerView) -> bool {
    semver_lt(a, b) || prec_eq(a, b)
}

fn digits_only(s: &[u8]) -> (r: bool)
    ensures
        r == is_digits(s@),
{
    let n = s.len();
    let mut i: usize = 0;
    while i < n
        invariant
            n == s@.len(),
            i <= n,
            forall|j: int| 0 <= j < i ==> 48 <= #[trigger] s@[j] <= 57,
        decreases n - i,
    {
        let c = *slice_index_get(s, i);
        if c < 48 || c > 57 {
            assert(!(48 <= s@[i as int] <= 57));
            return false;
        }
        i += 1;
    }
    true
}

fn lex_lt_bytes(a: &[u8], b: &[u8]) -> (r: bool)
    ensures
        r == lex_lt(a@, b@),
    decreases a@.len() + b@.len(),
{
    if b.len() == 0 {
        false
    } else if a.len() == 0 {
        true
    } else {
        let ca = *slice_index_get(a, 0);
        let cb = *slice_index_get(b, 0);
        if ca < cb {
            true
        } else if ca > cb {
            false
        } else {
            let r = lex_lt_bytes(
                slice_subrange(a, 1, a.len()),
                slice_subrange(b, 1, b.len()),
            );
            assert(a@.subrange(1, a@.len() as int) =~= a@.skip(1));
            assert(b@.subrange(1, b@.len() as int) =~= b@.skip(1));
            r
        }
    }
}

fn ident_lt_bytes(a: &[u8], b: &[u8]) -> (r: bool)
    ensures
        r == ident_lt(a@, b@),
{
    let da = digits_only(a);
    let db = digits_only(b);
    if da && db {
        a.len() < b.len() || (a.len() == b.len() && lex_lt_bytes(a, b))
    } else if da {
        true
    } else if db {
        false
    } else {
        lex_lt_bytes(a, b)
    }
}

fn ident_end_bytes(s: &[u8]) -> (r: usize)
    ensures
        r == ident_end(s@),
        r <= s@.len(),
    decreases s@.len(),
{
    proof {
        lemma_ident_end_bounds(s@);
    }
    if s.len() == 0 {
        0
    } else if *slice_index_get(s, 0) == 46 {
        0
    } else {
        let rest = ident_end_bytes(slice_subrange(s, 1, s.len()));
        assert(s@.subrange(1, s@.len() as int) =~= s@.skip(1));
        1 + rest
    }
}

fn pre_lt_bytes(a: &[u8], b: &[u8]) -> (r: bool)
    ensures
        r == pre_lt(a@, b@),
    decreases a@.len(),
{
    let ea = ident_end_bytes(a);
    let eb = ident_end_bytes(b);
    let ha = slice_subrange(a, 0, ea);
    let hb = slice_subrange(b, 0, eb);
    assert(a@.subrange(0, ea as int) =~= a@.take(ea as int));
    assert(b@.subrange(0, eb as int) =~= b@.take(eb as int));
    if ident_lt_bytes(ha, hb) {
        true
    } else if ident_lt_bytes(hb, ha) {
        false
    } else if ea == a.len() && eb == b.len() {
        false
    } else if ea == a.len() {
        true
    } else if eb == b.len() {
        false
    } else {
        let r = pre_lt_bytes(
            slice_subrange(a, ea + 1, a.len()),
            slice_subrange(b, eb + 1, b.len()),
        );
        assert(a@.subrange(ea + 1, a@.len() as int) =~= a@.skip(ea + 1));
        assert(b@.subrange(eb + 1, b@.len() as int) =~= b@.skip(eb + 1));
        r
    }
}

fn clone_bytes(v: &Vec<u8>) -> (r: Vec<u8>)
    ensures
        r@ == v@,
{
    let mut r: Vec<u8> = Vec::new();
    let n = v.len();
    let mut i: usize = 0;
    while i < n
        invariant
            n == v@.len(),
            i <= n,
            r@ == v@.take(i as int),
        decreases n - i,
    {
        r.push(v[i]);
        proof {
            assert(r@ =~= v@.take(i + 1));
        }
        i += 1;
    }
    proof {
        assert(r@ =~= v@);
    }
    r
}

impl Clone for SemVer {
    fn clone(&self) -> (r: Self)
        ensures
            r@ == self@,
    {
        SemVer {
            major: self.major,
            minor: self.minor,
            patch: self.patch,
            pre: clone_bytes(&self.pre),
            build: clone_bytes(&self.build),
        }
    }
}

impl SemVer {
    /// The version `0.0.0` with no pre-release and no build metadata.
    pub fn zero() -> (r: SemVer)
        ensures
            r@.major == 0,
            r@.minor == 0,
            r@.patch == 0,
            r@.pre == Seq::<u8>::empty(),
            r@.build == Seq::<u8>::empty(),
    {
        let r = SemVer { major: 0, minor: 0, patch: 0, pre: Vec::new(), build: Vec::new() };
        proof {
            assert(r@.pre =~= Seq::<u8>::empty());
            assert(r@.build =~= Seq::<u8>::empty());
        }
        r
    }

    /// Strict precedence test.
    pub fn lt(&self, other: &SemVer) -> (r: bool)
        ensures
            r == semver_lt(self@, other@),
    {
        if self.major != other.major {
            self.major < other.major
        } else if self.minor != other.minor {
            self.minor < other.minor
        } else if self.patch != other.patch {
            self.patch < other.patch
        } else if self.pre.len() > 0 && other.pre.len() == 0 {
            true
        } else if self.pre.len() > 0 && other.pre.len() > 0 {
            pre_lt_bytes(self.pre.as_slice(), other.pre.as_slice())
        } else {
            false
        }
    }
}

proof fn lemma_lex_lt_asym(a: Seq<u8>, b: Seq<u8>)
    ensures
        !(lex_lt(a, b) && lex_lt(b, a)),
    decreases a.len() + b.len(),
{
    if a.len() > 0 && b.len() > 0 && a[0] == b[0] {
        lemma_lex_lt_asym(a.skip(1), b.skip(1));
    }
}

proof fn lemma_lex_lt_irrefl(a: Seq<u8>)
    ensures
        !lex_lt(a, a),
    decreases a.len(),
{
    if a.len() > 0 {
        lemma_lex_lt_irrefl(a.skip(1));
    }
}

proof fn lemma_ident_lt_asym(a: Seq<u8>, b: Seq<u8>)
    ensures
        !(ident_lt(a, b) && ident_lt(b, a)),
{
    lemma_lex_lt_asym(a, b);
}

proof fn lemma_pre_lt_irrefl(a: Seq<u8>)
    ensures
        !pre_lt(a, a),
    decreases a.len(),
{
    lemma_ident_end_bounds(a);
    let ea = ident_end(a);
    let ha = a.take(ea);
    lemma_lex_lt_irrefl(ha);
    if ea != a.len() {
        lemma_pre_lt_irrefl(a.skip(ea + 1));
    }
}

proof fn lemma_pre_lt_asym(a: Seq<u8>, b: Seq<u8>)
    ensures
        !(pre_lt(a, b) && pre_lt(b, a)),
    decreases a.len(),
{
    lemma_ident_end_bounds(a);
    lemma_ident_end_bounds(b);
    let ea = ident_end(a);
    let eb = ident_end(b);
    lemma_ident_lt_asym(a.take(ea), b.take(eb));
    if ea != a.len() && eb != b.len() {
        lemma_pre_lt_asym(a.skip(ea + 1), b.skip(eb + 1));
    }
}

/// Precedence is a strict order: no candidate at or below the current version
/// is also strictly above it. With the guard requiring the candidate to lie
/// strictly above the current version, any pair with the candidate at or
/// below the current version is rejected.
pub proof fn lemma_le_excludes_lt(cur: SemVerView, cand: SemVerView)
    requires
        semver_le(cand, cur),
    ensures
        !semver_lt(cur, cand),
{
    if semver_lt(cand, cur) {
        lemma_pre_lt_asym(cand.pre, cur.pre);
    } else {
        lemma_pre_lt_irrefl(cur.pre);
    }
}

} // verus!
