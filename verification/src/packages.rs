//! The packages that a resolution is made of.
use vstd::prelude::*;

use crate::config;
use crate::config::{DependencyBuildControls, DependencyVisibility};
use crate::text;

verus! {

broadcast use vstd::string::group_string_axioms;

/// The tool by which a package without `cook.toml` is built.
#[derive(Debug, Clone, Copy, PartialEq, Eq, Structural)]
pub enum ExternalBuildSystem {
    Cmake,
    Make,
}

impl ExternalBuildSystem {
    /// The name of the tool.
    pub fn as_str(self) -> (r: &'static str)
        ensures
            r@ == (match self {
                ExternalBuildSystem::Cmake => "cmake"@,
                ExternalBuildSystem::Make => "make"@,
            }),
    {
        match self {
            ExternalBuildSystem::Cmake => "cmake",
            ExternalBuildSystem::Make => "make",
        }
    }
}

/// Where a package was found.
#[derive(Debug)]
pub enum PackageSource {
    Root,
    Path { manifest: String },
    Git { url: String, requested_rev: String, resolved_rev: String },
}

/// The directories and libraries of a package, as absolute paths and names.
#[derive(Debug)]
pub struct ResolvedExports {
    pub include_dirs: Vec<String>,
    pub lib_dirs: Vec<String>,
    pub libs: Vec<String>,
}

/// A dependency of the root package, ready to be built.
#[derive(Debug)]
pub struct ResolvedDependency {
    pub name: String,
    pub root_dir: String,
    pub visibility: DependencyVisibility,
    pub abi_fingerprint: String,
    pub external_build_system: Option<ExternalBuildSystem>,
    pub external_manifest_path: Option<String>,
    pub external_manifest_hash: Option<String>,
    pub exports: ResolvedExports,
    pub build: DependencyBuildControls,
}

/// A package's use of another package.
#[derive(Debug)]
pub struct ResolvedEdge {
    pub name: String,
    pub visibility: DependencyVisibility,
}

/// A package of the resolution.
#[derive(Debug)]
pub struct ResolvedPackage {
    pub name: String,
    pub root_dir: String,
    pub source: PackageSource,
    pub dependencies: Vec<ResolvedEdge>,
    pub abi_fingerprint: String,
    pub external_build_system: Option<ExternalBuildSystem>,
    pub external_manifest_path: Option<String>,
    pub external_manifest_hash: Option<String>,
    pub exports: ResolvedExports,
    pub build: DependencyBuildControls,
}

/// All packages that a project needs, and the order to build them in.
#[derive(Debug)]
pub struct ResolutionResult {
    pub packages: Vec<ResolvedPackage>,
    pub direct_dependencies: Vec<ResolvedDependency>,
    pub build_order: Vec<String>,
}

// ---------------------------------------------------------------------------
// Model
// ---------------------------------------------------------------------------

/// The model of a [`PackageSource`].
#[verifier::ext_equal]
pub enum OriginView {
    Root,
    Path { manifest: Seq<char> },
    Git { url: Seq<char>, requested_rev: Seq<char>, resolved_rev: Seq<char> },
}

impl View for PackageSource {
    type V = OriginView;

    open spec fn view(&self) -> OriginView {
        match self {
            PackageSource::Root => OriginView::Root,
            PackageSource::Path { manifest } => OriginView::Path { manifest: manifest@ },
            PackageSource::Git { url, requested_rev, resolved_rev } => OriginView::Git {
                url: url@,
                requested_rev: requested_rev@,
                resolved_rev: resolved_rev@,
            },
        }
    }
}

impl View for ResolvedExports {
    type V = config::ExportView;

    open spec fn view(&self) -> config::ExportView {
        config::ExportView {
            include_dirs: text::texts(self.include_dirs@),
            lib_dirs: text::texts(self.lib_dirs@),
            libs: text::texts(self.libs@),
        }
    }
}

/// The model of a [`ResolvedDependency`].
#[verifier::ext_equal]
pub struct DependencyView {
    pub name: Seq<char>,
    pub root_dir: Seq<char>,
    pub visibility: DependencyVisibility,
    pub abi_fingerprint: Seq<char>,
    pub external_build_system: Option<ExternalBuildSystem>,
    pub external_manifest_path: Option<Seq<char>>,
    pub external_manifest_hash: Option<Seq<char>>,
    pub exports: config::ExportView,
    pub build: config::ControlsView,
}

impl View for ResolvedDependency {
    type V = DependencyView;

    open spec fn view(&self) -> DependencyView {
        DependencyView {
            name: self.name@,
            root_dir: self.root_dir@,
            visibility: self.visibility,
            abi_fingerprint: self.abi_fingerprint@,
            external_build_system: self.external_build_system,
            external_manifest_path: text::opt_text(self.external_manifest_path),
            external_manifest_hash: text::opt_text(self.external_manifest_hash),
            exports: self.exports@,
            build: self.build@,
        }
    }
}

/// The model of a [`ResolvedEdge`].
#[verifier::ext_equal]
pub struct EdgeView {
    pub name: Seq<char>,
    pub visibility: DependencyVisibility,
}

impl View for ResolvedEdge {
    type V = EdgeView;

    open spec fn view(&self) -> EdgeView {
        EdgeView { name: self.name@, visibility: self.visibility }
    }
}

/// The models of a list of edges.
pub open spec fn edge_views(list: Seq<ResolvedEdge>) -> Seq<EdgeView> {
    list.map_values(|e: ResolvedEdge| e@)
}

/// The model of a [`ResolvedPackage`].
#[verifier::ext_equal]
pub struct PackageView {
    pub name: Seq<char>,
    pub root_dir: Seq<char>,
    pub source: OriginView,
    pub dependencies: Seq<EdgeView>,
    pub abi_fingerprint: Seq<char>,
    pub external_build_system: Option<ExternalBuildSystem>,
    pub external_manifest_path: Option<Seq<char>>,
    pub external_manifest_hash: Option<Seq<char>>,
    pub exports: config::ExportView,
    pub build: config::ControlsView,
}

impl View for ResolvedPackage {
    type V = PackageView;

    open spec fn view(&self) -> PackageView {
        PackageView {
            name: self.name@,
            root_dir: self.root_dir@,
            source: self.source@,
            dependencies: edge_views(self.dependencies@),
            abi_fingerprint: self.abi_fingerprint@,
            external_build_system: self.external_build_system,
            external_manifest_path: text::opt_text(self.external_manifest_path),
            external_manifest_hash: text::opt_text(self.external_manifest_hash),
            exports: self.exports@,
            build: self.build@,
        }
    }
}

/// The models of a list of packages.
pub open spec fn package_views(list: Seq<ResolvedPackage>) -> Seq<PackageView> {
    list.map_values(|p: ResolvedPackage| p@)
}

/// The models of a list of dependencies.
pub open spec fn dependency_views(list: Seq<ResolvedDependency>) -> Seq<DependencyView> {
    list.map_values(|d: ResolvedDependency| d@)
}

/// The model of a [`ResolutionResult`].
#[verifier::ext_equal]
pub struct ResolutionView {
    pub packages: Seq<PackageView>,
    pub direct_dependencies: Seq<DependencyView>,
    pub build_order: Seq<Seq<char>>,
}

impl View for ResolutionResult {
    type V = ResolutionView;

    open spec fn view(&self) -> ResolutionView {
        ResolutionView {
            packages: package_views(self.packages@),
            direct_dependencies: dependency_views(self.direct_dependencies@),
            build_order: text::texts(self.build_order@),
        }
    }
}

// ---------------------------------------------------------------------------
// Copies
// ---------------------------------------------------------------------------

impl Clone for PackageSource {
    fn clone(&self) -> (r: Self)
        ensures
            r@ == self@,
    {
        match self {
            PackageSource::Root => PackageSource::Root,
            PackageSource::Path { manifest } => PackageSource::Path { manifest: manifest.clone() },
            PackageSource::Git { url, requested_rev, resolved_rev } => PackageSource::Git {
                url: url.clone(),
                requested_rev: requested_rev.clone(),
                resolved_rev: resolved_rev.clone(),
            },
        }
    }
}

impl Clone for ResolvedExports {
    fn clone(&self) -> (r: Self)
        ensures
            r@ == self@,
    {
        ResolvedExports {
            include_dirs: text::copied_texts(&self.include_dirs),
            lib_dirs: text::copied_texts(&self.lib_dirs),
            libs: text::copied_texts(&self.libs),
        }
    }
}

impl Default for ResolvedExports {
    fn default() -> (r: Self)
        ensures
            r@ == config::no_exports(),
    {
        let r = ResolvedExports {
            include_dirs: Vec::new(),
            lib_dirs: Vec::new(),
            libs: Vec::new(),
        };
        assert(r@ =~= config::no_exports());
        r
    }
}

impl ResolvedExports {
    /// Whether two export lists say the same.
    pub fn same(&self, other: &Self) -> (r: bool)
        ensures
            r == (self@ == other@),
    {
        let r = text::same_texts(&self.include_dirs, &other.include_dirs) && text::same_texts(
            &self.lib_dirs,
            &other.lib_dirs,
        ) && text::same_texts(&self.libs, &other.libs);
        r
    }
}

impl Clone for ResolvedDependency {
    fn clone(&self) -> (r: Self)
        ensures
            r@ == self@,
    {
        ResolvedDependency {
            name: self.name.clone(),
            root_dir: self.root_dir.clone(),
            visibility: self.visibility,
            abi_fingerprint: self.abi_fingerprint.clone(),
            external_build_system: self.external_build_system,
            external_manifest_path: text::copied_opt(&self.external_manifest_path),
            external_manifest_hash: text::copied_opt(&self.external_manifest_hash),
            exports: self.exports.clone(),
            build: self.build.clone(),
        }
    }
}

// ---------------------------------------------------------------------------
// Laws
// ---------------------------------------------------------------------------

/// A resolution says of every package and of every direct dependency all that is known
/// of it, in their order, and names the packages to build in theirs.
pub proof fn resolutions_say_everything(result: ResolutionResult, i: int, j: int)
    ensures
        result@.packages.len() == result.packages@.len(),
        result@.direct_dependencies.len() == result.direct_dependencies@.len(),
        result@.build_order.len() == result.build_order@.len(),
        0 <= i < result.build_order@.len() ==> result@.build_order[i] == result.build_order@[i]@,
        0 <= i < result.packages@.len() ==> {
            let p = result.packages@[i];
            let v = result@.packages[i];
            &&& v.name == p.name@
            &&& v.root_dir == p.root_dir@
            &&& v.source == p.source@
            &&& v.abi_fingerprint == p.abi_fingerprint@
            &&& v.external_build_system == p.external_build_system
            &&& v.external_manifest_path == text::opt_text(p.external_manifest_path)
            &&& v.external_manifest_hash == text::opt_text(p.external_manifest_hash)
            &&& v.exports.include_dirs == text::texts(p.exports.include_dirs@)
            &&& v.exports.lib_dirs == text::texts(p.exports.lib_dirs@)
            &&& v.exports.libs == text::texts(p.exports.libs@)
            &&& v.build == p.build@
            &&& v.dependencies.len() == p.dependencies@.len()
            &&& 0 <= j < p.dependencies@.len() ==> v.dependencies[j].name
                == p.dependencies@[j].name@ && v.dependencies[j].visibility
                == p.dependencies@[j].visibility
        },
        0 <= i < result.direct_dependencies@.len() ==> {
            let d = result.direct_dependencies@[i];
            let v = result@.direct_dependencies[i];
            &&& v.name == d.name@
            &&& v.root_dir == d.root_dir@
            &&& v.visibility == d.visibility
            &&& v.abi_fingerprint == d.abi_fingerprint@
            &&& v.external_build_system == d.external_build_system
            &&& v.external_manifest_path == text::opt_text(d.external_manifest_path)
            &&& v.external_manifest_hash == text::opt_text(d.external_manifest_hash)
            &&& v.exports.include_dirs == text::texts(d.exports.include_dirs@)
            &&& v.exports.lib_dirs == text::texts(d.exports.lib_dirs@)
            &&& v.exports.libs == text::texts(d.exports.libs@)
            &&& v.build.exclude == text::texts(d.build.exclude@)
            &&& v.build.configure_args == text::texts(d.build.configure_args@)
            &&& v.build.build_args == text::texts(d.build.build_args@)
            &&& v.build.install_args == text::texts(d.build.install_args@)
        },
{
}

}
