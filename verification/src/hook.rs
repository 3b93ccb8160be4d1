//! Lifecycle hooks: command templates, their placeholders, and their
//! parameterization with the previous and next version markers.
//!
//! A hook is a command template over bytes. The recognized placeholders are
//! `{{version}}` (the next marker's bare version text), `{{latest}}` (the
//! previous marker's bare version text), `{{tag}}` (the next marker's
//! human-facing tag text), `{{package}}` (the next marker's package name) and
//! `{{major}}`, `{{minor}}`, `{{patch}}` (the next marker's numeric fields).
//! Instantiation substitutes every occurrence and fails when a referenced
//! field has no value in the given scope: `{{latest}}` without a previous
//! marker, or `{{package}}` outside package scope. Everything else is copied
//! through unchanged.

use vstd::prelude::*;
use vstd::slice::slice_subrange;
use crate::tag::Tag;
use crate::tag::TagView;
use crate::tag::display_of;
use crate::tag::version_text_of;
use crate::text::bytes_eq;
use crate::text::dec_of;
use crate::text::push_bytes;
use crate::text::push_decimal;

verus! {

/// Why hook handling failed: a placeholder without a value in the given
/// scope, or — reported back by the caller who ran the command — an execution
/// failure with the exit status, if the process exited at all.
#[derive(Clone, Copy, Debug, PartialEq, Eq, Structural)]
pub enum HookError {
    UnresolvedPlaceholder,
    HookExecutionError(Option<i32>),
}

/// A read-only snapshot of a marker handed to hook parameterization: the
/// marker and its human-facing tag text.
pub struct HookVersion {
    pub tag: Tag,
    pub prefixed_tag: Vec<u8>,
}

impl HookVersion {
    /// Snapshots a marker together with its rendered tag text.
    pub fn new(tag: Tag) -> (r: HookVersion)
        ensures
            r.tag@ == tag@,
            r.prefixed_tag@ == display_of(tag@),
    {
        let prefixed_tag = tag.display_tag();
        HookVersion { tag, prefixed_tag }
    }
}

pub open spec fn ph_version() -> Seq<u8> {
    seq![123u8, 123u8, 118u8, 101u8, 114u8, 115u8, 105u8, 111u8, 110u8, 125u8, 125u8]
}

pub open spec fn ph_latest() -> Seq<u8> {
    seq![123u8, 123u8, 108u8, 97u8, 116u8, 101u8, 115u8, 116u8, 125u8, 125u8]
}

pub open spec fn ph_tag() -> Seq<u8> {
    seq![123u8, 123u8, 116u8, 97u8, 103u8, 125u8, 125u8]
}

pub open spec fn ph_package() -> Seq<u8> {
    seq![123u8, 123u8, 112u8, 97u8, 99u8, 107u8, 97u8, 103u8, 101u8, 125u8, 125u8]
}

pub open spec fn ph_major() -> Seq<u8> {
    seq![123u8, 123u8, 109u8, 97u8, 106u8, 111u8, 114u8, 125u8, 125u8]
}

pub open spec fn ph_minor() -> Seq<u8> {
    seq![123u8, 123u8, 109u8, 105u8, 110u8, 111u8, 114u8, 125u8, 125u8]
}

pub open spec fn ph_patch() -> Seq<u8> {
    seq![123u8, 123u8, 112u8, 97u8, 116u8, 99u8, 104u8, 125u8, 125u8]
}

/// `t` begins with `p`.
pub open spec fn starts(t: Seq<u8>, p: Seq<u8>) -> bool {
    t.len() >= p.len() && t.take(p.len() as int) == p
}

/// The instantiated command for template `t` against the previous and next
/// markers, or `None` when a placeholder has no value in this scope.
pub open spec fn spec_subst(t: Seq<u8>, prev: Option<TagView>, next: TagView) -> Option<Seq<u8>>
    decreases t.len(),
{
    if t.len() == 0 {
        Some(Seq::empty())
    } else if starts(t, ph_version()) {
        match spec_subst(t.skip(ph_version().len() as int), prev, next) {
            Some(rest) => Some(version_text_of(next.version) + rest),
            None => None,
        }
    } else if starts(t, ph_latest()) {
        match prev {
            Some(pv) => match spec_subst(t.skip(ph_latest().len() as int), prev, next) {
                Some(rest) => Some(version_text_of(pv.version) + rest),
                None => None,
            },
            None => None,
        }
    } else if starts(t, ph_tag()) {
        match spec_subst(t.skip(ph_tag().len() as int), prev, next) {
            Some(rest) => Some(display_of(next) + rest),
            None => None,
        }
    } else if starts(t, ph_package()) {
        match next.package {
            Some(name) => match spec_subst(t.skip(ph_package().len() as int), prev, next) {
                Some(rest) => Some(name + rest),
                None => None,
            },
            None => None,
        }
    } else if starts(t, ph_major()) {
        match spec_subst(t.skip(ph_major().len() as int), prev, next) {
            Some(rest) => Some(dec_of(next.version.major as nat) + rest),
            None => None,
        }
    } else if starts(t, ph_minor()) {
        match spec_subst(t.skip(ph_minor().len() as int), prev, next) {
            Some(rest) => Some(dec_of(next.version.minor as nat) + rest),
            None => None,
        }
    } else if starts(t, ph_patch()) {
        match spec_subst(t.skip(ph_patch().len() as int), prev, next) {
            Some(rest) => Some(dec_of(next.version.patch as nat) + rest),
            None => None,
        }
    } else {
        match spec_subst(t.skip(1), prev, next) {
            Some(rest) => Some(seq![t[0]] + rest),
            None => None,
        }
    }
}

pub open spec fn opt_tag_view(o: Option<&Tag>) -> Option<TagView> {
    match o {
        Some(t) => Some(t@),
        None => None,
    }
}

fn starts_with(t: &[u8], p: &[u8]) -> (r: bool)
    ensures
        r == starts(t@, p@),
{
    if t.len() < p.len() {
        return false;
    }
    let head = slice_subrange(t, 0, p.len());
    let r = bytes_eq(head, p);
    proof {
        assert(t@.subrange(0, p@.len() as int) =~= t@.take(p@.len() as int));
    }
    r
}

fn ph_version_bytes() -> (r: Vec<u8>)
    ensures
        r@ == ph_version(),
{
    let mut v: Vec<u8> = Vec::new();
    v.push(123);
    v.push(123);
    v.push(118);
    v.push(101);
    v.push(114);
    v.push(115);
    v.push(105);
    v.push(111);
    v.push(110);
    v.push(125);
    v.push(125);
    proof {
        assert(v@ =~= ph_version());
    }
    v
}

fn ph_latest_bytes() -> (r: Vec<u8>)
    ensures
        r@ == ph_latest(),
{
    let mut v: Vec<u8> = Vec::new();
    v.push(123);
    v.push(123);
    v.push(108);
    v.push(97);
    v.push(116);
    v.push(101);
    v.push(115);
    v.push(116);
    v.push(125);
    v.push(125);
    proof {
        assert(v@ =~= ph_latest());
    }
    v
}

fn ph_tag_bytes() -> (r: Vec<u8>)
    ensures
        r@ == ph_tag(),
{
    let mut v: Vec<u8> = Vec::new();
    v.push(123);
    v.push(123);
    v.push(116);
    v.push(97);
    v.push(103);
    v.push(125);
    v.push(125);
    proof {
        assert(v@ =~= ph_tag());
    }
    v
}

fn ph_package_bytes() -> (r: Vec<u8>)
    ensures
        r@ == ph_package(),
{
    let mut v: Vec<u8> = Vec::new();
    v.push(123);
    v.push(123);
    v.push(112);
    v.push(97);
    v.push(99);
    v.push(107);
    v.push(97);
    v.push(103);
    v.push(101);
    v.push(125);
    v.push(125);
    proof {
        assert(v@ =~= ph_package());
    }
    v
}

fn ph_major_bytes() -> (r: Vec<u8>)
    ensures
        r@ == ph_major(),
{
    let mut v: Vec<u8> = Vec::new();
    v.push(123);
    v.push(123);
    v.push(109);
    v.push(97);
    v.push(106);
    v.push(111);
    v.push(114);
    v.push(125);
    v.push(125);
    proof {
        assert(v@ =~= ph_major());
    }
    v
}

fn ph_minor_bytes() -> (r: Vec<u8>)
    ensures
        r@ == ph_minor(),
{
    let mut v: Vec<u8> = Vec::new();
    v.push(123);
    v.push(123);
    v.push(109);
    v.push(105);
    v.push(110);
    v.push(111);
    v.push(114);
    v.push(125);
    v.push(125);
    proof {
        assert(v@ =~= ph_minor());
    }
    v
}

fn ph_patch_bytes() -> (r: Vec<u8>)
    ensures
        r@ == ph_patch(),
{
    let mut v: Vec<u8> = Vec::new();
    v.push(123);
    v.push(123);
    v.push(112);
    v.push(97);
    v.push(116);
    v.push(99);
    v.push(104);
    v.push(125);
    v.push(125);
    proof {
        assert(v@ =~= ph_patch());
    }
    v
}

fn subst_bytes(t: &[u8], prev: Option<&Tag>, next: &Tag) -> (r: Option<Vec<u8>>)
    ensures
        (match spec_subst(t@, opt_tag_view(prev), next@) {
            Some(s) => r matches Some(v) && v@ == s,
            None => r is None,
        }),
    decreases t@.len(),
{
    if t.len() == 0 {
        let out: Vec<u8> = Vec::new();
        proof {
            assert(out@ =~= Seq::<u8>::empty());
        }
        return Some(out);
    }
    let phv = ph_version_bytes();
    let phl = ph_latest_bytes();
    let pht = ph_tag_bytes();
    let php = ph_package_bytes();
    let phmaj = ph_major_bytes();
    let phmin = ph_minor_bytes();
    let phpat = ph_patch_bytes();
    if starts_with(t, phv.as_slice()) {
        let tail = slice_subrange(t, phv.len(), t.len());
        proof {
            assert(tail@ =~= t@.skip(ph_version().len() as int));
        }
        match subst_bytes(tail, prev, next) {
            Some(rest) => {
                let mut out = next.version_text();
                push_bytes(&mut out, rest.as_slice());
                Some(out)
            },
            None => None,
        }
    } else if starts_with(t, phl.as_slice()) {
        match prev {
            Some(p) => {
                let tail = slice_subrange(t, phl.len(), t.len());
                proof {
                    assert(tail@ =~= t@.skip(ph_latest().len() as int));
                }
                match subst_bytes(tail, prev, next) {
                    Some(rest) => {
                        let mut out = p.version_text();
                        push_bytes(&mut out, rest.as_slice());
                        Some(out)
                    },
                    None => None,
                }
            },
            None => None,
        }
    } else if starts_with(t, pht.as_slice()) {
        let tail = slice_subrange(t, pht.len(), t.len());
        proof {
            assert(tail@ =~= t@.skip(ph_tag().len() as int));
        }
        match subst_bytes(tail, prev, next) {
            Some(rest) => {
                let mut out = next.display_tag();
                push_bytes(&mut out, rest.as_slice());
                Some(out)
            },
            None => None,
        }
    } else if starts_with(t, php.as_slice()) {
        match next.package {
            Some(ref name) => {
                let tail = slice_subrange(t, php.len(), t.len());
                proof {
                    assert(tail@ =~= t@.skip(ph_package().len() as int));
                }
                match subst_bytes(tail, prev, next) {
                    Some(rest) => {
                        let mut out = crate::text::clone_vec_u8(name);
                        push_bytes(&mut out, rest.as_slice());
                        Some(out)
                    },
                    None => None,
                }
            },
            None => None,
        }
    } else if starts_with(t, phmaj.as_slice()) {
        let tail = slice_subrange(t, phmaj.len(), t.len());
        proof {
            assert(tail@ =~= t@.skip(ph_major().len() as int));
        }
        match subst_bytes(tail, prev, next) {
            Some(rest) => {
                let mut out: Vec<u8> = Vec::new();
                push_decimal(&mut out, next.version.major);
                push_bytes(&mut out, rest.as_slice());
                Some(out)
            },
            None => None,
        }
    } else if starts_with(t, phmin.as_slice()) {
        let tail = slice_subrange(t, phmin.len(), t.len());
        proof {
            assert(tail@ =~= t@.skip(ph_minor().len() as int));
        }
        match subst_bytes(tail, prev, next) {
            Some(rest) => {
                let mut out: Vec<u8> = Vec::new();
                push_decimal(&mut out, next.version.minor);
                push_bytes(&mut out, rest.as_slice());
                Some(out)
            },
            None => None,
        }
    } else if starts_with(t, phpat.as_slice()) {
        let tail = slice_subrange(t, phpat.len(), t.len());
        proof {
            assert(tail@ =~= t@.skip(ph_patch().len() as int));
        }
        match subst_bytes(tail, prev, next) {
            Some(rest) => {
                let mut out: Vec<u8> = Vec::new();
                push_decimal(&mut out, next.version.patch);
                push_bytes(&mut out, rest.as_slice());
                Some(out)
            },
            None => None,
        }
    } else {
        let tail = slice_subrange(t, 1, t.len());
        proof {
            assert(tail@ =~= t@.skip(1));
        }
        match subst_bytes(tail, prev, next) {
            Some(rest) => {
                let mut out: Vec<u8> = Vec::new();
                out.push(t[0]);
                push_bytes(&mut out, rest.as_slice());
                proof {
                    assert(out@ =~= seq![t@[0]] + rest@);
                }
                Some(out)
            },
            None => None,
        }
    }
}

/// Substitutes every placeholder of `template` with its value for the given
/// previous and next snapshots, failing when a referenced field has no value
/// in this scope.
pub fn instantiate(template: &[u8], previous: Option<&HookVersion>, next: &HookVersion) -> (r:
    Result<Vec<u8>, HookError>)
    ensures
        (match spec_subst(
            template@,
            (match previous {
                Some(h) => Some(h.tag@),
                None => None,
            }),
            next.tag@,
        ) {
            Some(s) => r matches Ok(v) && v@ == s,
            None => r matches Err(e) && e == HookError::UnresolvedPlaceholder,
        }),
{
    let prev_tag: Option<&Tag> = match previous {
        Some(h) => Some(&h.tag),
        None => None,
    };
    match subst_bytes(template, prev_tag, &next.tag) {
        Some(v) => Ok(v),
        None => Err(HookError::UnresolvedPlaceholder),
    }
}

} // verus!
