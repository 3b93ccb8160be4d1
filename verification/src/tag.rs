//! The version marker: an immutable value naming a release point.
//!
//! A marker carries a semantic version, the package it is scoped to (if any)
//! and, once persisted as a repository tag, the identifier of the commit it
//! anchors to. Deriving a new marker from an old one always clears the
//! anchor, since the derived marker is not yet bound to any commit.

use vstd::prelude::*;
use crate::text::clone_vec_u8;
use crate::text::dec_of;
use crate::text::push_bytes;
use crate::text::push_decimal;
use crate::version::SemVer;
use crate::version::SemVerView;

verus! {

/// A release point: a version, an optional package scope, and the commit
/// identifier it is anchored to once persisted.
pub struct Tag {
    pub version: SemVer,
    pub package: Option<Vec<u8>>,
    pub oid: Option<Vec<u8>>,
}

/// The mathematical model of a `Tag`.
#[verifier::ext_equal]
pub ghost struct TagView {
    pub version: SemVerView,
    pub package: Option<Seq<u8>>,
    pub oid: Option<Seq<u8>>,
}

impl View for Tag {
    type V = TagView;

    open spec fn view(&self) -> TagView {
        TagView {
            version: self.version@,
            package: match self.package {
                Some(ref p) => Some(p@),
                None => None,
            },
            oid: match self.oid {
                Some(ref o) => Some(o@),
                None => None,
            },
        }
    }
}

/// The bare version text: `major.minor.patch`, then `-pre` if a pre-release
/// is present and `+build` if build metadata is present.
pub open spec fn version_text_of(v: SemVerView) -> Seq<u8> {
    dec_of(v.major as nat) + seq![46u8] + dec_of(v.minor as nat) + seq![46u8] + dec_of(
        v.patch as nat,
    ) + (if v.pre.len() > 0 {
        seq![45u8] + v.pre
    } else {
        Seq::<u8>::empty()
    }) + (if v.build.len() > 0 {
        seq![43u8] + v.build
    } else {
        Seq::<u8>::empty()
    })
}

/// The human-facing tag text: the version text prefixed with `v`, and for a
/// package-scoped marker with the package name and a hyphen before that.
pub open spec fn display_of(t: TagView) -> Seq<u8> {
    (match t.package {
        Some(p) => p + seq![45u8],
        None => Seq::<u8>::empty(),
    }) + seq![118u8] + version_text_of(t.version)
}

impl Clone for Tag {
    fn clone(&self) -> (r: Self)
        ensures
            r@ == self@,
    {
        Tag {
            version: self.version.clone(),
            package: match self.package {
                Some(ref p) => Some(clone_vec_u8(p)),
                None => None,
            },
            oid: match self.oid {
                Some(ref o) => Some(clone_vec_u8(o)),
                None => None,
            },
        }
    }
}

impl Default for Tag {
    /// The baseline marker: version `0.0.0`, repository-wide, unanchored.
    fn default() -> (r: Self)
        ensures
            r@.version.major == 0,
            r@.version.minor == 0,
            r@.version.patch == 0,
            r@.version.pre == Seq::<u8>::empty(),
            r@.version.build == Seq::<u8>::empty(),
            r@.package is None,
            r@.oid is None,
    {
        Tag { version: SemVer::zero(), package: None, oid: None }
    }
}

impl Tag {
    /// Makes a fresh, unanchored marker for `version`, scoped to `package`.
    pub fn create(version: SemVer, package: Option<Vec<u8>>) -> (r: Tag)
        ensures
            r@.version == version@,
            r@.package == (match package {
                Some(p) => Some::<Seq<u8>>(p@),
                None => None::<Seq<u8>>,
            }),
            r@.oid is None,
    {
        Tag { version, package, oid: None }
    }

    /// Renders the bare version text of this marker.
    pub fn version_text(&self) -> (r: Vec<u8>)
        ensures
            r@ == version_text_of(self@.version),
    {
        let mut out: Vec<u8> = Vec::new();
        push_decimal(&mut out, self.version.major);
        out.push(46);
        push_decimal(&mut out, self.version.minor);
        out.push(46);
        push_decimal(&mut out, self.version.patch);
        if self.version.pre.len() > 0 {
            out.push(45);
            push_bytes(&mut out, self.version.pre.as_slice());
        }
        if self.version.build.len() > 0 {
            out.push(43);
            push_bytes(&mut out, self.version.build.as_slice());
        }
        proof {
            assert(out@ =~= version_text_of(self@.version));
        }
        out
    }

    /// Renders the human-facing tag text of this marker.
    pub fn display_tag(&self) -> (r: Vec<u8>)
        ensures
            r@ == display_of(self@),
    {
        let mut out: Vec<u8> = Vec::new();
        if let Some(ref p) = self.package {
            push_bytes(&mut out, p.as_slice());
            out.push(45);
        }
        out.push(118);
        let core = self.version_text();
        push_bytes(&mut out, core.as_slice());
        proof {
            assert(out@ =~= display_of(self@));
        }
        out
    }
}

} // verus!
