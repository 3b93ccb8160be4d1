//! The explicit configuration object: branch allow-list, signing, hook
//! templates per scope and per named profile, and the configured packages.
//!
//! Hook resolution picks, in order, the first non-empty source among the
//! package's profile hooks, the package's default hooks, the global profile
//! hooks and the global default hooks; sources are never merged.

use vstd::prelude::*;
use crate::text::clone_vec_u8;
use crate::text::texts;

verus! {

/// The two lifecycle points at which hooks run.
#[derive(Clone, Copy, Debug, PartialEq, Eq, Structural)]
pub enum HookType {
    PreBump,
    PostBump,
}

/// A named alternative set of hooks.
pub struct Profile {
    pub name: Vec<u8>,
    pub pre_bump_hooks: Vec<Vec<u8>>,
    pub post_bump_hooks: Vec<Vec<u8>>,
}

#[verifier::ext_equal]
pub ghost struct ProfileView {
    pub name: Seq<u8>,
    pub pre: Seq<Seq<u8>>,
    pub post: Seq<Seq<u8>>,
}

impl View for Profile {
    type V = ProfileView;

    open spec fn view(&self) -> ProfileView {
        ProfileView {
            name: self.name@,
            pre: texts(self.pre_bump_hooks@),
            post: texts(self.post_bump_hooks@),
        }
    }
}

/// One independently versioned package of a monorepo.
pub struct MonoRepoPackage {
    pub name: Vec<u8>,
    pub pre_bump_hooks: Vec<Vec<u8>>,
    pub post_bump_hooks: Vec<Vec<u8>>,
    pub profiles: Vec<Profile>,
}

#[verifier::ext_equal]
pub ghost struct PackageView {
    pub name: Seq<u8>,
    pub pre: Seq<Seq<u8>>,
    pub post: Seq<Seq<u8>>,
    pub profiles: Seq<ProfileView>,
}

impl View for MonoRepoPackage {
    type V = PackageView;

    open spec fn view(&self) -> PackageView {
        PackageView {
            name: self.name@,
            pre: texts(self.pre_bump_hooks@),
            post: texts(self.post_bump_hooks@),
            profiles: self.profiles@.map(|i: int, p: Profile| p@),
        }
    }
}

/// The whole configuration, constructed once at process start and passed in.
pub struct Settings {
    pub branch_whitelist: Vec<Vec<u8>>,
    pub sign: bool,
    pub pre_bump_hooks: Vec<Vec<u8>>,
    pub post_bump_hooks: Vec<Vec<u8>>,
    pub profiles: Vec<Profile>,
    pub packages: Vec<MonoRepoPackage>,
}

#[verifier::ext_equal]
pub ghost struct SettingsView {
    pub whitelist: Seq<Seq<u8>>,
    pub sign: bool,
    pub pre: Seq<Seq<u8>>,
    pub post: Seq<Seq<u8>>,
    pub profiles: Seq<ProfileView>,
    pub packages: Seq<PackageView>,
}

impl View for Settings {
    type V = SettingsView;

    open spec fn view(&self) -> SettingsView {
        SettingsView {
            whitelist: texts(self.branch_whitelist@),
            sign: self.sign,
            pre: texts(self.pre_bump_hooks@),
            post: texts(self.post_bump_hooks@),
            profiles: self.profiles@.map(|i: int, p: Profile| p@),
            packages: self.packages@.map(|i: int, p: MonoRepoPackage| p@),
        }
    }
}

pub open spec fn profile_hooks_of(p: ProfileView, kind: HookType) -> Seq<Seq<u8>> {
    if kind is PreBump {
        p.pre
    } else {
        p.post
    }
}

pub open spec fn package_hooks_of(p: PackageView, kind: HookType) -> Seq<Seq<u8>> {
    if kind is PreBump {
        p.pre
    } else {
        p.post
    }
}

pub open spec fn global_hooks_of(s: SettingsView, kind: HookType) -> Seq<Seq<u8>> {
    if kind is PreBump {
        s.pre
    } else {
        s.post
    }
}

/// The first profile of the list with this name.
pub open spec fn find_profile(ps: Seq<ProfileView>, name: Seq<u8>) -> Option<ProfileView>
    decreases ps.len(),
{
    if ps.len() == 0 {
        None
    } else if ps[0].name == name {
        Some(ps[0])
    } else {
        find_profile(ps.skip(1), name)
    }
}

/// The first package of the list with this name.
pub open spec fn find_package(ps: Seq<PackageView>, name: Seq<u8>) -> Option<PackageView>
    decreases ps.len(),
{
    if ps.len() == 0 {
        None
    } else if ps[0].name == name {
        Some(ps[0])
    } else {
        find_package(ps.skip(1), name)
    }
}

pub open spec fn named_profile_hooks(ps: Seq<ProfileView>, name: Seq<u8>, kind: HookType) -> Seq<
    Seq<u8>,
> {
    match find_profile(ps, name) {
        Some(p) => profile_hooks_of(p, kind),
        None => Seq::empty(),
    }
}

/// The hooks that resolution yields: the first non-empty source among the
/// package's profile hooks, the package's default hooks, the global profile
/// hooks and the global default hooks.
pub open spec fn spec_resolve_hooks(
    s: SettingsView,
    kind: HookType,
    package: Option<Seq<u8>>,
    profile: Option<Seq<u8>>,
) -> Seq<Seq<u8>> {
    let c1 = match (package, profile) {
        (Some(pn), Some(prn)) => match find_package(s.packages, pn) {
            Some(p) => named_profile_hooks(p.profiles, prn, kind),
            None => Seq::empty(),
        },
        _ => Seq::empty(),
    };
    let c2 = match package {
        Some(pn) => match find_package(s.packages, pn) {
            Some(p) => package_hooks_of(p, kind),
            None => Seq::empty(),
        },
        None => Seq::empty(),
    };
    let c3 = match profile {
        Some(prn) => named_profile_hooks(s.profiles, prn, kind),
        None => Seq::empty(),
    };
    let c4 = global_hooks_of(s, kind);
    if c1.len() > 0 {
        c1
    } else if c2.len() > 0 {
        c2
    } else if c3.len() > 0 {
        c3
    } else {
        c4
    }
}

/// Copies a list of byte texts.
pub fn clone_texts(v: &Vec<Vec<u8>>) -> (r: Vec<Vec<u8>>)
    ensures
        texts(r@) == texts(v@),
{
    let n = v.len();
    let mut r: Vec<Vec<u8>> = Vec::new();
    let mut i: usize = 0;
    while i < n
        invariant
            n == v@.len(),
            i <= n,
            texts(r@) == texts(v@.take(i as int)),
        decreases n - i,
    {
        let ghost r0 = r@;
        r.push(clone_vec_u8(&v[i]));
        proof {
            assert(texts(r@) =~= texts(r0).push(v@[i as int]@));
            assert(texts(v@.take(i + 1)) =~= texts(v@.take(i as int)).push(v@[i as int]@));
        }
        i += 1;
    }
    proof {
        assert(v@.take(n as int) =~= v@);
    }
    r
}

fn find_profile_ref<'a>(ps: &'a Vec<Profile>, name: &[u8]) -> (r: Option<&'a Profile>)
    ensures
        (match r {
            Some(p) => find_profile(ps@.map(|i: int, q: Profile| q@), name@) == Some(p@),
            None => find_profile(ps@.map(|i: int, q: Profile| q@), name@) is None,
        }),
{
    let ghost views = ps@.map(|i: int, q: Profile| q@);
    let n = ps.len();
    let mut i: usize = 0;
    proof {
        assert(views.skip(0) =~= views);
    }
    while i < n
        invariant
            n == ps@.len(),
            i <= n,
            views == ps@.map(|i: int, q: Profile| q@),
            find_profile(views, name@) == find_profile(views.skip(i as int), name@),
        decreases n - i,
    {
        if crate::text::bytes_eq(ps[i].name.as_slice(), name) {
            proof {
                assert(views.skip(i as int)[0] == views[i as int]);
            }
            return Some(&ps[i]);
        }
        proof {
            assert(views.skip(i as int)[0] == views[i as int]);
            assert(views.skip(i as int).skip(1) =~= views.skip(i + 1));
        }
        i += 1;
    }
    proof {
        assert(views.skip(n as int) =~= Seq::<ProfileView>::empty());
    }
    None
}

fn find_package_ref<'a>(ps: &'a Vec<MonoRepoPackage>, name: &[u8]) -> (r: Option<
    &'a MonoRepoPackage,
>)
    ensures
        (match r {
            Some(p) => find_package(ps@.map(|i: int, q: MonoRepoPackage| q@), name@) == Some(p@),
            None => find_package(ps@.map(|i: int, q: MonoRepoPackage| q@), name@) is None,
        }),
{
    let ghost views = ps@.map(|i: int, q: MonoRepoPackage| q@);
    let n = ps.len();
    let mut i: usize = 0;
    proof {
        assert(views.skip(0) =~= views);
    }
    while i < n
        invariant
            n == ps@.len(),
            i <= n,
            views == ps@.map(|i: int, q: MonoRepoPackage| q@),
            find_package(views, name@) == find_package(views.skip(i as int), name@),
        decreases n - i,
    {
        if crate::text::bytes_eq(ps[i].name.as_slice(), name) {
            proof {
                assert(views.skip(i as int)[0] == views[i as int]);
            }
            return Some(&ps[i]);
        }
        proof {
            assert(views.skip(i as int)[0] == views[i as int]);
            assert(views.skip(i as int).skip(1) =~= views.skip(i + 1));
        }
        i += 1;
    }
    proof {
        assert(views.skip(n as int) =~= Seq::<PackageView>::empty());
    }
    None
}

impl Settings {
    /// Resolves the hooks for a lifecycle point and scope: the first
    /// non-empty source wins, sources are never merged.
    pub fn resolve_hooks(&self, kind: HookType, package: Option<&[u8]>, profile: Option<&[u8]>)
        -> (r: Vec<Vec<u8>>)
        ensures
            texts(r@) == spec_resolve_hooks(
                self@,
                kind,
                (match package {
                    Some(p) => Some(p@),
                    None => None,
                }),
                (match profile {
                    Some(p) => Some(p@),
                    None => None,
                }),
            ),
    {
        if let Some(pn) = package {
            if let Some(pkg) = find_package_ref(&self.packages, pn) {
                if let Some(prn) = profile {
                    if let Some(f) = find_profile_ref(&pkg.profiles, prn) {
                        let src = (match kind {
                            HookType::PreBump => &f.pre_bump_hooks,
                            HookType::PostBump => &f.post_bump_hooks,
                        });
                        if src.len() > 0 {
                            return clone_texts(src);
                        }
                    }
                }
                let src = (match kind {
                    HookType::PreBump => &pkg.pre_bump_hooks,
                    HookType::PostBump => &pkg.post_bump_hooks,
                });
                if src.len() > 0 {
                    return clone_texts(src);
                }
            }
        }
        if let Some(prn) = profile {
            if let Some(f) = find_profile_ref(&self.profiles, prn) {
                let src = (match kind {
                    HookType::PreBump => &f.pre_bump_hooks,
                    HookType::PostBump => &f.post_bump_hooks,
                });
                if src.len() > 0 {
                    return clone_texts(src);
                }
            }
        }
        let src = (match kind {
            HookType::PreBump => &self.pre_bump_hooks,
            HookType::PostBump => &self.post_bump_hooks,
        });
        clone_texts(src)
    }
}

} // verus!
