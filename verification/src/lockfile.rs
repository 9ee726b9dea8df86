//! The lockfile: what a resolution came to, in an order that does not depend on
//! how it was found.
use vstd::prelude::*;
use vstd::string::*;

use crate::config::DependencyVisibility;
use crate::failure::Failure;
use crate::packages;
use crate::packages::{
    ExternalBuildSystem, PackageSource, ResolutionResult, ResolvedEdge, ResolvedPackage,
};
use crate::sorting;
use crate::text;

verus! {

broadcast use vstd::string::group_string_axioms;

/// The contents of `cook.lock`.
#[derive(Debug)]
pub struct CookLock {
    pub version: u32,
    pub packages: Vec<LockedPackage>,
}

#[derive(Debug)]
pub struct LockedPackage {
    pub name: String,
    pub root_dir: String,
    pub source: LockedSource,
    pub abi_fingerprint: String,
    pub external_build_system: Option<LockedExternalBuildSystem>,
    pub external_manifest_path: Option<String>,
    pub external_manifest_hash: Option<String>,
    pub external_include_dirs: Vec<String>,
    pub external_lib_dirs: Vec<String>,
    pub external_libs: Vec<String>,
    pub dependencies: Vec<LockedDependency>,
}

#[derive(Debug, Clone, Copy, PartialEq, Eq, Structural)]
pub enum LockedExternalBuildSystem {
    Cmake,
    Make,
}

#[derive(Debug)]
pub struct LockedDependency {
    pub name: String,
    pub visibility: DependencyVisibility,
}

#[derive(Debug)]
pub enum LockedSource {
    Root,
    Path { manifest: String },
    Git { url: String, requested_rev: String, resolved_rev: String },
}

// ---------------------------------------------------------------------------
// Model
// ---------------------------------------------------------------------------

impl View for LockedSource {
    type V = packages::OriginView;

    open spec fn view(&self) -> packages::OriginView {
        match self {
            LockedSource::Root => packages::OriginView::Root,
            LockedSource::Path { manifest } => packages::OriginView::Path { manifest: manifest@ },
            LockedSource::Git { url, requested_rev, resolved_rev } => packages::OriginView::Git {
                url: url@,
                requested_rev: requested_rev@,
                resolved_rev: resolved_rev@,
            },
        }
    }
}

impl View for LockedDependency {
    type V = packages::EdgeView;

    open spec fn view(&self) -> packages::EdgeView {
        packages::EdgeView { name: self.name@, visibility: self.visibility }
    }
}

/// The models of a list of dependencies.
pub open spec fn dependency_views(list: Seq<LockedDependency>) -> Seq<packages::EdgeView> {
    list.map_values(|d: LockedDependency| d@)
}

/// The model of a [`LockedPackage`].
#[verifier::ext_equal]
pub struct LockedPackageView {
    pub name: Seq<char>,
    pub root_dir: Seq<char>,
    pub source: packages::OriginView,
    pub abi_fingerprint: Seq<char>,
    pub external_build_system: Option<LockedExternalBuildSystem>,
    pub external_manifest_path: Option<Seq<char>>,
    pub external_manifest_hash: Option<Seq<char>>,
    pub external_include_dirs: Seq<Seq<char>>,
    pub external_lib_dirs: Seq<Seq<char>>,
    pub external_libs: Seq<Seq<char>>,
    pub dependencies: Seq<packages::EdgeView>,
}

impl View for LockedPackage {
    type V = LockedPackageView;

    open spec fn view(&self) -> LockedPackageView {
        LockedPackageView {
            name: self.name@,
            root_dir: self.root_dir@,
            source: self.source@,
            abi_fingerprint: self.abi_fingerprint@,
            external_build_system: self.external_build_system,
            external_manifest_path: text::opt_text(self.external_manifest_path),
            external_manifest_hash: text::opt_text(self.external_manifest_hash),
            external_include_dirs: text::texts(self.external_include_dirs@),
            external_lib_dirs: text::texts(self.external_lib_dirs@),
            external_libs: text::texts(self.external_libs@),
            dependencies: dependency_views(self.dependencies@),
        }
    }
}

/// The models of a list of packages.
pub open spec fn package_views(list: Seq<LockedPackage>) -> Seq<LockedPackageView> {
    list.map_values(|p: LockedPackage| p@)
}

/// The model of a [`CookLock`].
#[verifier::ext_equal]
pub struct LockView {
    pub version: u32,
    pub packages: Seq<LockedPackageView>,
}

impl View for CookLock {
    type V = LockView;

    open spec fn view(&self) -> LockView {
        LockView { version: self.version, packages: package_views(self.packages@) }
    }
}

/// Dependencies are ordered by name.
pub open spec fn dependency_before(a: packages::EdgeView, b: packages::EdgeView) -> bool {
    text::text_lt(a.name, b.name)
}

/// Packages are ordered by name, and by directory where their names are equal.
pub open spec fn package_before(a: LockedPackageView, b: LockedPackageView) -> bool {
    text::text_lt(a.name, b.name) || (a.name == b.name && text::text_lt(a.root_dir, b.root_dir))
}

/// The order of dependencies.
pub open spec fn by_name() -> spec_fn(packages::EdgeView, packages::EdgeView) -> bool {
    |a: packages::EdgeView, b: packages::EdgeView| dependency_before(a, b)
}

/// The order of packages.
pub open spec fn by_name_and_root() -> spec_fn(LockedPackageView, LockedPackageView) -> bool {
    |a: LockedPackageView, b: LockedPackageView| package_before(a, b)
}

/// A build system as it is locked.
pub open spec fn locked_system(system: ExternalBuildSystem) -> LockedExternalBuildSystem {
    match system {
        ExternalBuildSystem::Cmake => LockedExternalBuildSystem::Cmake,
        ExternalBuildSystem::Make => LockedExternalBuildSystem::Make,
    }
}

/// A package as it is locked.
pub open spec fn locked_package(package: packages::PackageView) -> LockedPackageView {
    LockedPackageView {
        name: package.name,
        root_dir: package.root_dir,
        source: package.source,
        abi_fingerprint: package.abi_fingerprint,
        external_build_system: match package.external_build_system {
            Some(system) => Some(locked_system(system)),
            None => None,
        },
        external_manifest_path: package.external_manifest_path,
        external_manifest_hash: package.external_manifest_hash,
        external_include_dirs: package.exports.include_dirs,
        external_lib_dirs: package.exports.lib_dirs,
        external_libs: package.exports.libs,
        dependencies: sorting::sorted(package.dependencies, by_name()),
    }
}

/// The packages of a resolution as they are locked, in the order in which they are found.
pub open spec fn locked_packages(resolution: packages::ResolutionView) -> Seq<LockedPackageView> {
    resolution.packages.map_values(|p: packages::PackageView| locked_package(p))
}

/// The lockfile of a resolution.
pub open spec fn lock_of(resolution: packages::ResolutionView) -> LockView {
    LockView {
        version: 1,
        packages: sorting::sorted(locked_packages(resolution), by_name_and_root()),
    }
}

/// The complaint about a lockfile that is not there.
pub open spec fn lock_missing(path: Seq<char>) -> Seq<char> {
    "lockfile is required but missing: "@ + path
        + ". Run 'cook lock' locally and commit the file"@
}

/// The complaint about a lockfile that says something else.
pub open spec fn lock_drifted(path: Seq<char>) -> Seq<char> {
    "lockfile drift detected in "@ + path
        + ". Regenerate with 'cook lock' and commit the updated lockfile"@
}

/// What is wrong with the lockfile at `path`, if anything.
pub open spec fn lock_complaint(
    lock: LockView,
    path: Seq<char>,
    found: Option<Result<CookLock, Failure>>,
) -> Option<Seq<char>> {
    match found {
        None => Some(lock_missing(path)),
        Some(Err(failure)) => Some(failure@),
        Some(Ok(existing)) => if existing@ == lock {
            None
        } else {
            Some(lock_drifted(path))
        },
    }
}

// ---------------------------------------------------------------------------
// Laws
// ---------------------------------------------------------------------------

proof fn lemma_text_order(a: Seq<char>, b: Seq<char>, c: Seq<char>)
    ensures
        text::text_lt(a, b) ==> !text::text_lt(b, a),
        !text::text_lt(a, b) && !text::text_lt(b, c) ==> !text::text_lt(a, c),
        !text::text_lt(a, a),
{
    text::lemma_text_lt_irreflexive(a);
    text::lemma_text_lt_irreflexive(b);
    if text::text_lt(a, b) && text::text_lt(b, a) {
        text::lemma_text_lt_transitive(a, b, a);
    }
    text::lemma_text_lt_total(a, b);
    text::lemma_text_lt_total(b, c);
    if text::text_lt(a, c) && !text::text_lt(a, b) && !text::text_lt(b, c) {
        if text::text_lt(c, b) {
            text::lemma_text_lt_transitive(a, c, b);
        }
    }
}

proof fn lemma_orders()
    ensures
        sorting::is_order(by_name()),
        sorting::is_order(by_name_and_root()),
{
    assert forall|a: packages::EdgeView, b: packages::EdgeView| #[trigger]
        by_name()(a, b) implies !by_name()(b, a) by {
        lemma_text_order(a.name, b.name, a.name);
    }
    assert forall|a: packages::EdgeView, b: packages::EdgeView, c: packages::EdgeView|
        !(#[trigger] by_name()(a, b)) && !(#[trigger] by_name()(b, c)) implies !by_name()(a, c) by {
        lemma_text_order(a.name, b.name, c.name);
    }
    assert forall|a: LockedPackageView, b: LockedPackageView| #[trigger]
        by_name_and_root()(a, b) implies !by_name_and_root()(b, a) by {
        lemma_text_order(a.name, b.name, a.name);
        lemma_text_order(a.root_dir, b.root_dir, a.root_dir);
    }
    assert forall|a: LockedPackageView, b: LockedPackageView, c: LockedPackageView|
        !(#[trigger] by_name_and_root()(a, b)) && !(#[trigger] by_name_and_root()(
            b,
            c,
        )) implies !by_name_and_root()(a, c) by {
        lemma_text_order(a.name, b.name, c.name);
        lemma_text_order(c.name, b.name, a.name);
        lemma_text_order(a.root_dir, b.root_dir, c.root_dir);
        text::lemma_text_lt_total(a.name, b.name);
        text::lemma_text_lt_total(b.name, c.name);
        if a.name == c.name && a.name != b.name {
            lemma_text_order(a.name, b.name, a.name);
            lemma_text_order(b.name, a.name, b.name);
        }
        if text::text_lt(b.name, a.name) && text::text_lt(c.name, b.name) {
            text::lemma_text_lt_transitive(c.name, b.name, a.name);
            lemma_text_order(c.name, a.name, c.name);
        }
    }
}

/// A lockfile lists the packages by name and directory and the dependencies of
/// each by name, and it holds the packages of the resolution and no others.
pub proof fn lock_is_sorted(resolution: packages::ResolutionView)
    ensures
        sorting::is_sorted(lock_of(resolution).packages, by_name_and_root()),
        lock_of(resolution).packages.to_multiset() == locked_packages(resolution).to_multiset(),
        forall|i: int|
            0 <= i < lock_of(resolution).packages.len() ==> sorting::is_sorted(
                (#[trigger] lock_of(resolution).packages[i]).dependencies,
                by_name(),
            ),
{
    broadcast use vstd::seq_lib::group_to_multiset_ensures;

    lemma_orders();
    let all = locked_packages(resolution);
    let out = lock_of(resolution).packages;
    sorting::sorting_sorts(all, by_name_and_root());
    assert forall|i: int| 0 <= i < out.len() implies sorting::is_sorted(
        (#[trigger] out[i]).dependencies,
        by_name(),
    ) by {
        assert(out.contains(out[i]));
        assert(out.to_multiset().count(out[i]) > 0);
        assert(all.contains(out[i]));
        let j = choose|j: int| 0 <= j < all.len() && all[j] == out[i];
        sorting::sorting_sorts(resolution.packages[j].dependencies, by_name());
    }
}

/// Locking keeps the dependencies of a package.
pub proof fn lock_keeps_dependencies(package: packages::PackageView)
    ensures
        locked_package(package).dependencies.to_multiset() == package.dependencies.to_multiset(),
{
    lemma_orders();
    sorting::sorting_sorts(package.dependencies, by_name());
}

/// A package without the order of its dependencies.
pub open spec fn unordered(package: packages::PackageView) -> (
    packages::PackageView,
    vstd::multiset::Multiset<packages::EdgeView>,
) {
    (
        packages::PackageView { dependencies: Seq::empty(), ..package },
        package.dependencies.to_multiset(),
    )
}

/// The packages of a resolution, without their order and that of their dependencies.
pub open spec fn unordered_packages(
    resolution: packages::ResolutionView,
) -> vstd::multiset::Multiset<
    (packages::PackageView, vstd::multiset::Multiset<packages::EdgeView>),
> {
    resolution.packages.map_values(|p: packages::PackageView| unordered(p)).to_multiset()
}

/// Dependencies of one package that have the same name are alike.
pub open spec fn edges_agree(package: packages::PackageView) -> bool {
    forall|i: int, j: int|
        0 <= i < package.dependencies.len() && 0 <= j < package.dependencies.len() && (
        #[trigger] package.dependencies[i]).name == (#[trigger] package.dependencies[j]).name
            ==> package.dependencies[i] == package.dependencies[j]
}

/// Packages that have the same name and directory are locked alike, and so are
/// dependencies of one package that have the same name.
pub open spec fn names_tell_apart(resolution: packages::ResolutionView) -> bool {
    &&& forall|i: int|
        0 <= i < resolution.packages.len() ==> edges_agree(#[trigger] resolution.packages[i])
    &&& forall|i: int, j: int|
        0 <= i < resolution.packages.len() && 0 <= j < resolution.packages.len() && (
        #[trigger] resolution.packages[i]).name == (#[trigger] resolution.packages[j]).name
            && resolution.packages[i].root_dir == resolution.packages[j].root_dir
            ==> locked_package(resolution.packages[i]) == locked_package(resolution.packages[j])
}

proof fn lemma_locked_unordered(a: packages::PackageView, b: packages::PackageView)
    requires
        unordered(a) == unordered(b),
        edges_agree(a),
    ensures
        locked_package(a) == locked_package(b),
{
    lemma_orders();
    assert forall|i: int, j: int|
        0 <= i < a.dependencies.len() && 0 <= j < a.dependencies.len() && !by_name()(
            #[trigger] a.dependencies[i],
            #[trigger] a.dependencies[j],
        ) && !by_name()(a.dependencies[j], a.dependencies[i]) implies a.dependencies[i]
        == a.dependencies[j] by {
        text::lemma_text_lt_total(a.dependencies[i].name, a.dependencies[j].name);
    }
    sorting::sorting_ignores_order(a.dependencies, b.dependencies, by_name());
    let x = unordered(a).0;
    let y = unordered(b).0;
    assert(a == (packages::PackageView { dependencies: a.dependencies, ..x }));
    assert(b == (packages::PackageView { dependencies: b.dependencies, ..y }));
}

proof fn lemma_edges_agree(a: packages::PackageView, b: packages::PackageView)
    requires
        unordered(a) == unordered(b),
        edges_agree(a),
    ensures
        edges_agree(b),
{
    broadcast use vstd::seq_lib::group_to_multiset_ensures;

    let x = a.dependencies;
    let y = b.dependencies;
    assert(x.to_multiset() == y.to_multiset());
    assert forall|i: int, j: int|
        0 <= i < y.len() && 0 <= j < y.len() && (#[trigger] y[i]).name == (
        #[trigger] y[j]).name implies y[i] == y[j] by {
        assert(y.contains(y[i]) && y.contains(y[j]));
        assert(y.to_multiset().count(y[i]) > 0 && y.to_multiset().count(y[j]) > 0);
        assert(x.contains(y[i]) && x.contains(y[j]));
        let k = choose|k: int| 0 <= k < x.len() && x[k] == y[i];
        let l = choose|l: int| 0 <= l < x.len() && x[l] == y[j];
        assert(x[k].name == x[l].name);
    }
}

proof fn lemma_all_edges_agree(a: packages::ResolutionView, b: packages::ResolutionView)
    requires
        unordered_packages(a) == unordered_packages(b),
        forall|i: int| 0 <= i < a.packages.len() ==> edges_agree(#[trigger] a.packages[i]),
    ensures
        forall|i: int| 0 <= i < b.packages.len() ==> edges_agree(#[trigger] b.packages[i]),
{
    broadcast use vstd::seq_lib::group_to_multiset_ensures;

    let f = |p: packages::PackageView| unordered(p);
    let x = a.packages.map_values(f);
    let y = b.packages.map_values(f);
    assert forall|i: int| 0 <= i < b.packages.len() implies edges_agree(
        #[trigger] b.packages[i],
    ) by {
        assert(y[i] == unordered(b.packages[i]));
        assert(y.contains(y[i]));
        assert(y.to_multiset().count(y[i]) > 0);
        assert(x.contains(y[i]));
        let k = choose|k: int| 0 <= k < x.len() && x[k] == y[i];
        assert(x[k] == unordered(a.packages[k]));
        lemma_edges_agree(a.packages[k], b.packages[i]);
    }
}

/// A package whose dependencies agree, as it is locked, from what is left of it
/// without their order.
spec fn locked_unordered(
    rest: (packages::PackageView, vstd::multiset::Multiset<packages::EdgeView>),
) -> LockedPackageView {
    locked_package(
        choose|p: packages::PackageView| #[trigger] unordered(p) == rest && edges_agree(p),
    )
}

proof fn lemma_locked_packages_unordered(resolution: packages::ResolutionView)
    requires
        forall|i: int|
            0 <= i < resolution.packages.len() ==> edges_agree(#[trigger] resolution.packages[i]),
    ensures
        locked_packages(resolution) == resolution.packages.map_values(
            |p: packages::PackageView| unordered(p),
        ).map_values(
            |rest: (packages::PackageView, vstd::multiset::Multiset<packages::EdgeView>)|
                locked_unordered(rest),
        ),
{
    let f = |p: packages::PackageView| unordered(p);
    let g = |rest: (packages::PackageView, vstd::multiset::Multiset<packages::EdgeView>)|
        locked_unordered(rest);
    let all = resolution.packages;
    assert forall|i: int| 0 <= i < all.len() implies #[trigger] locked_packages(resolution)[i]
        == all.map_values(f).map_values(g)[i] by {
        let rest = unordered(all[i]);
        assert(edges_agree(all[i]));
        let p = choose|p: packages::PackageView| #[trigger]
            unordered(p) == rest && edges_agree(p);
        lemma_locked_unordered(all[i], p);
    }
    assert(locked_packages(resolution) =~= all.map_values(f).map_values(g));
}

/// The lockfile does not depend on the order in which the packages are found, nor
/// on the order in which the dependencies of each are, where names tell them apart.
pub proof fn lock_ignores_order(a: packages::ResolutionView, b: packages::ResolutionView)
    requires
        unordered_packages(a) == unordered_packages(b),
        names_tell_apart(a),
    ensures
        lock_of(a) == lock_of(b),
{
    lemma_orders();
    lemma_all_edges_agree(a, b);
    let f = |p: packages::PackageView| unordered(p);
    let g = |rest: (packages::PackageView, vstd::multiset::Multiset<packages::EdgeView>)|
        locked_unordered(rest);
    lemma_locked_packages_unordered(a);
    lemma_locked_packages_unordered(b);
    sorting::lemma_mapped_multiset(a.packages.map_values(f), b.packages.map_values(f), g);
    let x = locked_packages(a);
    assert forall|i: int, j: int|
        0 <= i < x.len() && 0 <= j < x.len() && !by_name_and_root()(
            #[trigger] x[i],
            #[trigger] x[j],
        ) && !by_name_and_root()(x[j], x[i]) implies x[i] == x[j] by {
        assert(x[i] == locked_package(a.packages[i]) && x[j] == locked_package(a.packages[j]));
        text::lemma_text_lt_total(x[i].name, x[j].name);
        text::lemma_text_lt_total(x[i].root_dir, x[j].root_dir);
    }
    sorting::sorting_ignores_order(x, locked_packages(b), by_name_and_root());
}

/// A lockfile that was written for a resolution is accepted for it, and any other
/// lockfile is not.
pub proof fn only_own_lock_is_accepted(
    resolution: packages::ResolutionView,
    path: Seq<char>,
    written: CookLock,
)
    ensures
        lock_complaint(
            lock_of(resolution),
            path,
            Some(Ok::<CookLock, Failure>(written)),
        ) is None <==> written@ == lock_of(resolution),
{
}

/// A locked package says all that is known of the package, its build system among
/// it, and for each of its dependencies the name and the visibility.
pub proof fn lock_keeps_what_is_known(package: packages::PackageView)
    ensures
        ({
            let locked = locked_package(package);
            &&& locked.name == package.name
            &&& locked.root_dir == package.root_dir
            &&& locked.source == package.source
            &&& locked.abi_fingerprint == package.abi_fingerprint
            &&& package.external_build_system is None <==> locked.external_build_system is None
            &&& package.external_build_system == Some(ExternalBuildSystem::Cmake)
                <==> locked.external_build_system == Some(LockedExternalBuildSystem::Cmake)
            &&& package.external_build_system == Some(ExternalBuildSystem::Make)
                <==> locked.external_build_system == Some(LockedExternalBuildSystem::Make)
            &&& locked.external_manifest_path == package.external_manifest_path
            &&& locked.external_manifest_hash == package.external_manifest_hash
            &&& locked.external_include_dirs == package.exports.include_dirs
            &&& locked.external_lib_dirs == package.exports.lib_dirs
            &&& locked.external_libs == package.exports.libs
            &&& locked.dependencies.to_multiset() == package.dependencies.to_multiset()
        }),
{
    lemma_orders();
    sorting::sorting_sorts(package.dependencies, by_name());
}

/// The packages of a lockfile stand in the order of their names, those of the same
/// name in that of their directories; the dependencies of a package in that of their
/// names. The version of the format is the first.
pub proof fn lock_is_in_the_order_of_names(resolution: packages::ResolutionView, i: int, j: int)
    requires
        0 <= i < j < lock_of(resolution).packages.len(),
    ensures
        lock_of(resolution).version == 1,
        ({
            let a = lock_of(resolution).packages[i];
            let b = lock_of(resolution).packages[j];
            &&& a.name == b.name || text::text_lt(a.name, b.name)
            &&& a.name == b.name ==> a.root_dir == b.root_dir || text::text_lt(
                a.root_dir,
                b.root_dir,
            )
            &&& forall|k: int, l: int|
                0 <= k < l < a.dependencies.len() ==> (#[trigger] a.dependencies[k]).name == (
                #[trigger] a.dependencies[l]).name || text::text_lt(
                    a.dependencies[k].name,
                    a.dependencies[l].name,
                )
        }),
{
    lock_is_sorted(resolution);
    let list = lock_of(resolution).packages;
    let a = list[i];
    let b = list[j];
    assert(!by_name_and_root()(list[j], list[i]));
    text::lemma_text_lt_total(a.name, b.name);
    text::lemma_text_lt_total(a.root_dir, b.root_dir);
    assert forall|k: int, l: int| 0 <= k < l < a.dependencies.len() implies (
    #[trigger] a.dependencies[k]).name == (#[trigger] a.dependencies[l]).name || text::text_lt(
        a.dependencies[k].name,
        a.dependencies[l].name,
    ) by {
        assert(!by_name()(a.dependencies[l], a.dependencies[k]));
        text::lemma_text_lt_total(a.dependencies[k].name, a.dependencies[l].name);
    }
}

/// A lockfile that is missing and one that says something else are complained of
/// differently, each with what to do about it.
pub proof fn lock_complaints_tell_what_to_do(
    lock: LockView,
    path: Seq<char>,
    found: Option<Result<CookLock, Failure>>,
)
    ensures
        found is None ==> lock_complaint(lock, path, found) == Some(
            "lockfile is required but missing: "@ + path
                + ". Run 'cook lock' locally and commit the file"@,
        ),
        found matches Some(Ok(other)) && other@ != lock ==> lock_complaint(lock, path, found)
            == Some(
            "lockfile drift detected in "@ + path
                + ". Regenerate with 'cook lock' and commit the updated lockfile"@,
        ),
        found matches Some(Ok(own)) && own@ == lock ==> lock_complaint(lock, path, found) is None,
        found matches Some(Err(_)) ==> lock_complaint(lock, path, found) is Some,
{
}

/// Two lockfiles are the same only if they have the same version and the same packages
/// in the same order, each with all that is locked of it.
pub proof fn locks_are_compared_whole(a: CookLock, b: CookLock, i: int, j: int)
    requires
        a@ == b@,
    ensures
        a.version == b.version,
        a.packages@.len() == b.packages@.len(),
        0 <= i < a.packages@.len() ==> {
            let p = a.packages@[i];
            let q = b.packages@[i];
            &&& p.name@ == q.name@
            &&& p.root_dir@ == q.root_dir@
            &&& p.abi_fingerprint@ == q.abi_fingerprint@
            &&& p.external_build_system == q.external_build_system
            &&& text::opt_text(p.external_manifest_path) == text::opt_text(q.external_manifest_path)
            &&& text::opt_text(p.external_manifest_hash) == text::opt_text(q.external_manifest_hash)
            &&& text::texts(p.external_include_dirs@) == text::texts(q.external_include_dirs@)
            &&& text::texts(p.external_lib_dirs@) == text::texts(q.external_lib_dirs@)
            &&& text::texts(p.external_libs@) == text::texts(q.external_libs@)
            &&& p.dependencies@.len() == q.dependencies@.len()
            &&& 0 <= j < p.dependencies@.len() ==> p.dependencies@[j].name@
                == q.dependencies@[j].name@ && p.dependencies@[j].visibility
                == q.dependencies@[j].visibility
            &&& p.source is Root <==> q.source is Root
            &&& p.source matches LockedSource::Path { manifest } ==> (q.source
                matches LockedSource::Path { manifest: other } && manifest@ == other@)
            &&& p.source matches LockedSource::Git { url, requested_rev, resolved_rev } ==> (
            q.source matches LockedSource::Git {
                url: other,
                requested_rev: requested,
                resolved_rev: resolved,
            } && url@ == other@ && requested_rev@ == requested@ && resolved_rev@ == resolved@)
        },
{
    assert(a@.packages.len() == a.packages@.len() && b@.packages.len() == b.packages@.len());
    if 0 <= i < a.packages@.len() {
        let p = a.packages@[i];
        let q = b.packages@[i];
        assert(a@.packages[i] == p@ && b@.packages[i] == q@);
        assert(p@.dependencies.len() == p.dependencies@.len());
        assert(q@.dependencies.len() == q.dependencies@.len());
        if 0 <= j < p.dependencies@.len() {
            assert(p@.dependencies[j] == p.dependencies@[j]@);
            assert(q@.dependencies[j] == q.dependencies@[j]@);
        }
    }
}

// ---------------------------------------------------------------------------
// Locking
// ---------------------------------------------------------------------------

fn external_build_system_to_locked(system: ExternalBuildSystem) -> (r: LockedExternalBuildSystem)
    ensures
        r == locked_system(system),
{
    match system {
        ExternalBuildSystem::Cmake => LockedExternalBuildSystem::Cmake,
        ExternalBuildSystem::Make => LockedExternalBuildSystem::Make,
    }
}

fn source_from_package(source: &PackageSource) -> (r: LockedSource)
    ensures
        r@ == source@,
{
    match source {
        PackageSource::Root => LockedSource::Root,
        PackageSource::Path { manifest } => LockedSource::Path { manifest: manifest.clone() },
        PackageSource::Git { url, requested_rev, resolved_rev } => LockedSource::Git {
            url: url.clone(),
            requested_rev: requested_rev.clone(),
            resolved_rev: resolved_rev.clone(),
        },
    }
}

fn lock_dependencies(list: &Vec<ResolvedEdge>) -> (r: Vec<LockedDependency>)
    ensures
        dependency_views(r@) == sorting::sorted(packages::edge_views(list@), by_name()),
{
    let ghost all = packages::edge_views(list@);
    let mut out: Vec<LockedDependency> = Vec::new();
    let mut i: usize = 0;
    assert(dependency_views(out@) =~= sorting::sorted(all.take(0), by_name()));
    while i < list.len()
        invariant
            i <= list@.len(),
            all == packages::edge_views(list@),
            dependency_views(out@) == sorting::sorted(all.take(i as int), by_name()),
        decreases list.len() - i,
    {
        let ghost before = dependency_views(out@);
        let item = LockedDependency { name: list[i].name.clone(), visibility: list[i].visibility };
        let ghost view = item@;
        assert(view == all[i as int]);
        let mut at: usize = out.len();
        while at > 0 && text::text_before(item.name.as_str(), out[at - 1].name.as_str())
            invariant
                at <= out@.len(),
                before == dependency_views(out@),
                view == item@,
                forall|k: int| at <= k < before.len() ==> by_name()(view, #[trigger] before[k]),
            decreases at,
        {
            at -= 1;
        }
        proof {
            sorting::lemma_placed(before, view, by_name(), at as int);
            assert(all.take(i + 1).drop_last() == all.take(i as int));
        }
        out.insert(at, item);
        assert(dependency_views(out@) =~= before.insert(at as int, view));
        i += 1;
    }
    assert(all.take(all.len() as int) == all);
    out
}

fn lock_package(package: &ResolvedPackage) -> (r: LockedPackage)
    ensures
        r@ == locked_package(package@),
{
    LockedPackage {
        name: package.name.clone(),
        root_dir: package.root_dir.clone(),
        source: source_from_package(&package.source),
        abi_fingerprint: package.abi_fingerprint.clone(),
        external_build_system: match package.external_build_system {
            Some(system) => Some(external_build_system_to_locked(system)),
            None => None,
        },
        external_manifest_path: text::copied_opt(&package.external_manifest_path),
        external_manifest_hash: text::copied_opt(&package.external_manifest_hash),
        external_include_dirs: text::copied_texts(&package.exports.include_dirs),
        external_lib_dirs: text::copied_texts(&package.exports.lib_dirs),
        external_libs: text::copied_texts(&package.exports.libs),
        dependencies: lock_dependencies(&package.dependencies),
    }
}

fn comes_before(a: &LockedPackage, b: &LockedPackage) -> (r: bool)
    ensures
        r == package_before(a@, b@),
{
    text::text_before(a.name.as_str(), b.name.as_str()) || (a.name == b.name && text::text_before(
        a.root_dir.as_str(),
        b.root_dir.as_str(),
    ))
}

fn same_sources(a: &LockedSource, b: &LockedSource) -> (r: bool)
    ensures
        r == (a@ == b@),
{
    match (a, b) {
        (LockedSource::Root, LockedSource::Root) => true,
        (LockedSource::Path { manifest: x }, LockedSource::Path { manifest: y }) => *x == *y,
        (
            LockedSource::Git { url: u, requested_rev: q, resolved_rev: s },
            LockedSource::Git { url: v, requested_rev: r, resolved_rev: t },
        ) => *u == *v && *q == *r && *s == *t,
        _ => false,
    }
}

fn same_dependencies(a: &Vec<LockedDependency>, b: &Vec<LockedDependency>) -> (r: bool)
    ensures
        r == (dependency_views(a@) == dependency_views(b@)),
{
    let ghost x = dependency_views(a@);
    let ghost y = dependency_views(b@);
    if a.len() != b.len() {
        assert(x.len() != y.len());
        return false;
    }
    let mut i: usize = 0;
    while i < a.len()
        invariant
            i <= a@.len() == b@.len(),
            x == dependency_views(a@),
            y == dependency_views(b@),
            forall|j: int| 0 <= j < i ==> x[j] == y[j],
        decreases a.len() - i,
    {
        if a[i].name != b[i].name || a[i].visibility != b[i].visibility {
            assert(x[i as int] != y[i as int]);
            return false;
        }
        assert(x[i as int] =~= y[i as int]);
        i += 1;
    }
    assert(x =~= y);
    true
}

impl LockedPackage {
    fn same(&self, other: &Self) -> (r: bool)
        ensures
            r == (self@ == other@),
    {
        let r = self.name == other.name && self.root_dir == other.root_dir && same_sources(
            &self.source,
            &other.source,
        ) && self.abi_fingerprint == other.abi_fingerprint && self.external_build_system
            == other.external_build_system && text::same_opt(
            &self.external_manifest_path,
            &other.external_manifest_path,
        ) && text::same_opt(&self.external_manifest_hash, &other.external_manifest_hash)
            && text::same_texts(&self.external_include_dirs, &other.external_include_dirs)
            && text::same_texts(&self.external_lib_dirs, &other.external_lib_dirs)
            && text::same_texts(&self.external_libs, &other.external_libs) && same_dependencies(
            &self.dependencies,
            &other.dependencies,
        );
        assert(r ==> self@ =~= other@);
        r
    }
}

impl CookLock {
    /// The lockfile of a resolution.
    pub fn from_resolution(resolution: &ResolutionResult) -> (r: Self)
        ensures
            r@ == lock_of(resolution@),
    {
        let ghost all = locked_packages(resolution@);
        let mut out: Vec<LockedPackage> = Vec::new();
        let mut i: usize = 0;
        assert(package_views(out@) =~= sorting::sorted(all.take(0), by_name_and_root()));
        while i < resolution.packages.len()
            invariant
                i <= resolution.packages@.len(),
                all == locked_packages(resolution@),
                package_views(out@) == sorting::sorted(all.take(i as int), by_name_and_root()),
            decreases resolution.packages.len() - i,
        {
            let ghost before = package_views(out@);
            let item = lock_package(&resolution.packages[i]);
            let ghost view = item@;
            assert(view == all[i as int]);
            let mut at: usize = out.len();
            while at > 0 && comes_before(&item, &out[at - 1])
                invariant
                    at <= out@.len(),
                    before == package_views(out@),
                    view == item@,
                    forall|k: int|
                        at <= k < before.len() ==> by_name_and_root()(view, #[trigger] before[k]),
                decreases at,
            {
                at -= 1;
            }
            proof {
                sorting::lemma_placed(before, view, by_name_and_root(), at as int);
                assert(all.take(i + 1).drop_last() == all.take(i as int));
            }
            out.insert(at, item);
            assert(package_views(out@) =~= before.insert(at as int, view));
            i += 1;
        }
        assert(all.take(all.len() as int) == all);
        CookLock { version: 1, packages: out }
    }

    /// Whether two lockfiles say the same.
    pub fn same(&self, other: &Self) -> (r: bool)
        ensures
            r == (self@ == other@),
    {
        let ghost x = package_views(self.packages@);
        let ghost y = package_views(other.packages@);
        if self.version != other.version {
            return false;
        }
        if self.packages.len() != other.packages.len() {
            assert(x.len() != y.len());
            return false;
        }
        let mut i: usize = 0;
        while i < self.packages.len()
            invariant
                i <= self.packages@.len() == other.packages@.len(),
                x == package_views(self.packages@),
                y == package_views(other.packages@),
                forall|j: int| 0 <= j < i ==> x[j] == y[j],
            decreases self.packages.len() - i,
        {
            if !self.packages[i].same(&other.packages[i]) {
                assert(x[i as int] != y[i as int]);
                return false;
            }
            assert(x[i as int] == y[i as int]);
            i += 1;
        }
        assert(x =~= y);
        true
    }

    /// Whether the lockfile at `path` says the same as this one. `found` is what
    /// was read there, if there is such a file.
    pub fn ensure_matches_file(&self, path: &str, found: Option<&Result<CookLock, Failure>>) -> (r:
        Result<(), Failure>)
        ensures
            match lock_complaint(
                self@,
                path@,
                match found {
                    Some(f) => Some(*f),
                    None => None,
                },
            ) {
                None => r is Ok,
                Some(message) => r is Err && r->Err_0@ == message,
            },
    {
        match found {
            None => {
                let mut message = "lockfile is required but missing: ".to_owned();
                message.append(path);
                message.append(". Run 'cook lock' locally and commit the file");
                Err(Failure::new(message))
            },
            Some(Err(failure)) => Err(failure.copied()),
            Some(Ok(existing)) => {
                if existing.same(self) {
                    return Ok(());
                }
                let mut message = "lockfile drift detected in ".to_owned();
                message.append(path);
                message.append(". Regenerate with 'cook lock' and commit the updated lockfile");
                Err(Failure::new(message))
            },
        }
    }
}

}
