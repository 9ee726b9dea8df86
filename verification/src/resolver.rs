//! Finding all packages that a project needs.
use vstd::prelude::*;
use vstd::string::*;

use crate::abi;
use crate::config;
use crate::config::{
    AbiProfile, CookConfig, DependencyBuildControls, DependencyBuildSystem, DependencyExportConfig,
    DependencySource, DependencySpec, DependencyVisibility,
};
use crate::digest;
use crate::failure::Failure;
use crate::findings;
use crate::findings::{CheckoutRequest, DirectoryFacts, Findings, Request, Stop};
use crate::ordered_map;
use crate::ordered_map::OrderedMap;
use crate::packages;
use crate::packages::{
    ExternalBuildSystem, PackageSource, ResolutionResult, ResolvedDependency, ResolvedEdge,
    ResolvedExports, ResolvedPackage,
};
use crate::paths;
use crate::resolution;
use crate::resolution::VisitState;
use crate::resolution_laws;
use crate::text;

verus! {

broadcast use vstd::string::group_string_axioms;

/// How to resolve.
#[derive(Debug, Clone)]
pub struct ResolveOptions {
    /// The directory under which dependencies are checked out.
    pub workspace_root: String,
    /// Whether the network must not be used.
    pub offline: bool,
}

/// How to walk, on a system whose paths follow the rules of Windows or not.
pub open spec fn walk_options(options: ResolveOptions, windows: bool) -> resolution::WalkOptions {
    resolution::WalkOptions {
        workspace_root: options.workspace_root@,
        offline: options.offline,
        windows,
    }
}

impl Default for ResolveOptions {
    fn default() -> (r: Self)
        ensures
            r.workspace_root@ == "."@,
            !r.offline,
    {
        ResolveOptions { workspace_root: ".".to_owned(), offline: false }
    }
}

// ---------------------------------------------------------------------------
// Exports and build files of external packages
// ---------------------------------------------------------------------------

/// An exported directory as a path seen from the package's directory.
pub fn resolve_export_path(root_dir: &str, value: &str, windows: bool) -> (r: String)
    ensures
        r@ == paths::path_join(windows, root_dir@, value@),
{
    paths::join(windows, root_dir, value)
}

/// An exported library: a full path if it looks like a path, else its name.
pub fn resolve_export_lib(root_dir: &str, value: &str, windows: bool) -> (r: String)
    ensures
        r@ == resolution::export_lib(windows, root_dir@, value@),
{
    if paths::is_absolute_path(windows, value) || text::starts_with(value, ".") || text::has_char(
        value,
        '/',
    ) || text::has_char(value, '\\') {
        paths::normalize_path(paths::join(windows, root_dir, value).as_str())
    } else {
        value.to_owned()
    }
}

fn resolve_export_dirs(root_dir: &str, list: &Vec<String>, windows: bool) -> (r: Vec<String>)
    ensures
        text::texts(r@) == text::texts(list@).map_values(
            |v: Seq<char>| resolution::export_dir(windows, root_dir@, v),
        ),
{
    let mut out: Vec<String> = Vec::new();
    let mut i: usize = 0;
    while i < list.len()
        invariant
            i <= list@.len(),
            out@.len() == i,
            forall|j: int|
                0 <= j < i ==> #[trigger] out@[j]@ == resolution::export_dir(
                    windows,
                    root_dir@,
                    list@[j]@,
                ),
        decreases list.len() - i,
    {
        out.push(paths::normalize_path(resolve_export_path(root_dir, list[i].as_str(), windows).as_str()));
        i += 1;
    }
    assert(text::texts(out@) =~= text::texts(list@).map_values(
        |v: Seq<char>| resolution::export_dir(windows, root_dir@, v),
    ));
    out
}

/// What an external package exports, seen from outside.
pub fn resolve_external_exports(
    root_dir: &str,
    export: &DependencyExportConfig,
    windows: bool,
) -> (r: ResolvedExports)
    ensures
        r@ == resolution::full_exports(windows, root_dir@, export@),
{
    let mut libs: Vec<String> = Vec::new();
    let mut i: usize = 0;
    while i < export.libs.len()
        invariant
            i <= export.libs@.len(),
            libs@.len() == i,
            forall|j: int|
                0 <= j < i ==> #[trigger] libs@[j]@ == resolution::export_lib(
                    windows,
                    root_dir@,
                    export.libs@[j]@,
                ),
        decreases export.libs.len() - i,
    {
        libs.push(resolve_export_lib(root_dir, export.libs[i].as_str(), windows));
        i += 1;
    }
    assert(text::texts(libs@) =~= text::texts(export.libs@).map_values(
        |v: Seq<char>| resolution::export_lib(windows, root_dir@, v),
    ));
    ResolvedExports {
        include_dirs: resolve_export_dirs(root_dir, &export.include_dirs, windows),
        lib_dirs: resolve_export_dirs(root_dir, &export.lib_dirs, windows),
        libs,
    }
}

/// The build system and the build file of a directory without `cook.toml`.
pub fn detect_external_build_system(
    found: &DirectoryFacts,
    preference: DependencyBuildSystem,
    windows: bool,
) -> (r: Option<(ExternalBuildSystem, String)>)
    ensures
        r is Some <==> resolution::detected(windows, *found, preference) is Some,
        r matches Some(d) ==> resolution::detected(windows, *found, preference) == Some((d.0, d.1@)),
        preference == DependencyBuildSystem::Make ==> !(r matches Some((ExternalBuildSystem::Cmake, _))),
        preference == DependencyBuildSystem::Cmake ==> !(r matches Some((ExternalBuildSystem::Make, _))),
        preference == DependencyBuildSystem::Make && found.makefile ==> (r matches Some(d) && d.0
            == ExternalBuildSystem::Make && d.1@ == paths::path_join(
            windows,
            found.root@,
            "Makefile"@,
        )),
        preference == DependencyBuildSystem::Make && !found.makefile && found.lower_makefile ==> (
        r matches Some(d) && d.0 == ExternalBuildSystem::Make && d.1@ == paths::path_join(
            windows,
            found.root@,
            "makefile"@,
        )),
        preference != DependencyBuildSystem::Make && found.cmake_lists ==> (r matches Some(d) && d.0
            == ExternalBuildSystem::Cmake && d.1@ == paths::path_join(
            windows,
            found.root@,
            "CMakeLists.txt"@,
        )),
        preference == DependencyBuildSystem::Auto && !found.cmake_lists && found.makefile ==> (
        r matches Some(d) && d.0 == ExternalBuildSystem::Make && d.1@ == paths::path_join(
            windows,
            found.root@,
            "Makefile"@,
        )),
        preference == DependencyBuildSystem::Auto && !found.cmake_lists && !found.makefile
            && found.lower_makefile ==> (r matches Some(d) && d.0 == ExternalBuildSystem::Make
            && d.1@ == paths::path_join(windows, found.root@, "makefile"@)),
        !found.cmake_lists && !found.makefile && !found.lower_makefile ==> r is None,
{
    let root = found.root.as_str();
    let cmake = match preference {
        DependencyBuildSystem::Make => false,
        _ => found.cmake_lists,
    };
    let make_wanted = match preference {
        DependencyBuildSystem::Cmake => false,
        _ => true,
    };
    if cmake {
        Some((ExternalBuildSystem::Cmake, paths::join(windows, root, "CMakeLists.txt")))
    } else if make_wanted && found.makefile {
        Some((ExternalBuildSystem::Make, paths::join(windows, root, "Makefile")))
    } else if make_wanted && found.lower_makefile {
        Some((ExternalBuildSystem::Make, paths::join(windows, root, "makefile")))
    } else {
        None
    }
}

// ---------------------------------------------------------------------------
// The walk
// ---------------------------------------------------------------------------

struct InternalEdge {
    target_idx: usize,
    visibility: DependencyVisibility,
}

struct InternalNode {
    name: String,
    root_dir: String,
    source: PackageSource,
    abi: AbiProfile,
    abi_fingerprint: String,
    external_build_system: Option<ExternalBuildSystem>,
    external_manifest_path: Option<String>,
    external_manifest_hash: Option<String>,
    exports: ResolvedExports,
    build: DependencyBuildControls,
    dependencies: Vec<InternalEdge>,
}

struct ExternalNodeData {
    root_dir: String,
    source: PackageSource,
    build_system: ExternalBuildSystem,
    manifest_path: String,
    manifest_hash: String,
    name: String,
    exports: ResolvedExports,
    build: DependencyBuildControls,
}

enum ResolvedManifestKind {
    Cook { manifest: String, source: PackageSource },
    External(ExternalNodeData),
}

struct Resolver {
    options: ResolveOptions,
    /// Paths follow the rules of Windows.
    windows: bool,
    states: OrderedMap<VisitState>,
    stack: Vec<String>,
    nodes: Vec<InternalNode>,
    index_by_manifest: OrderedMap<usize>,
    index_by_external_root: OrderedMap<usize>,
    post_order: Vec<usize>,
    /// How many checkouts have been made.
    turn: usize,
}

impl View for InternalEdge {
    type V = resolution::LinkView;

    closed spec fn view(&self) -> resolution::LinkView {
        resolution::LinkView { target: self.target_idx as int, visibility: self.visibility }
    }
}

spec fn link_views(list: Seq<InternalEdge>) -> Seq<resolution::LinkView> {
    list.map_values(|e: InternalEdge| e@)
}

impl View for InternalNode {
    type V = resolution::NodeView;

    closed spec fn view(&self) -> resolution::NodeView {
        resolution::NodeView {
            name: self.name@,
            root_dir: self.root_dir@,
            source: self.source@,
            abi: self.abi@,
            abi_fingerprint: self.abi_fingerprint@,
            external_build_system: self.external_build_system,
            external_manifest_path: text::opt_text(self.external_manifest_path),
            external_manifest_hash: text::opt_text(self.external_manifest_hash),
            exports: self.exports@,
            build: self.build@,
            dependencies: link_views(self.dependencies@),
        }
    }
}

spec fn node_views(list: Seq<InternalNode>) -> Seq<resolution::NodeView> {
    list.map_values(|n: InternalNode| n@)
}

impl View for ExternalNodeData {
    type V = resolution::ExternalView;

    closed spec fn view(&self) -> resolution::ExternalView {
        resolution::ExternalView {
            root_dir: self.root_dir@,
            source: self.source@,
            build_system: self.build_system,
            manifest_path: self.manifest_path@,
            manifest_hash: self.manifest_hash@,
            name: self.name@,
            exports: self.exports@,
            build: self.build@,
        }
    }
}

impl View for ResolvedManifestKind {
    type V = resolution::LocatedView;

    closed spec fn view(&self) -> resolution::LocatedView {
        match self {
            ResolvedManifestKind::Cook { manifest, source } => resolution::LocatedView::Cook {
                manifest: manifest@,
                source: source@,
            },
            ResolvedManifestKind::External(data) => resolution::LocatedView::External(data@),
        }
    }
}

spec fn numbers(map: Map<Seq<char>, usize>) -> Map<Seq<char>, int> {
    map.map_values(|n: usize| n as int)
}

spec fn number_list(list: Seq<usize>) -> Seq<int> {
    list.map_values(|n: usize| n as int)
}

impl View for Resolver {
    type V = resolution::WalkView;

    closed spec fn view(&self) -> resolution::WalkView {
        resolution::WalkView {
            states: ordered_map::map_of(self.states@),
            stack: text::texts(self.stack@),
            nodes: node_views(self.nodes@),
            by_manifest: numbers(ordered_map::map_of(self.index_by_manifest@)),
            by_external: numbers(ordered_map::map_of(self.index_by_external_root@)),
            post_order: number_list(self.post_order@),
            turn: self.turn as int,
        }
    }
}

fn failed(message: &str) -> (r: Stop)
    ensures
        r@ == findings::StopView::Failed(message@),
{
    Stop::Failed(Failure::new(message.to_owned()))
}

/// What stands where a step of the walk ends.
spec fn step_result(
    r: Result<usize, Stop>,
    after: resolution::WalkView,
    expected: Result<(resolution::WalkView, int), findings::StopView>,
) -> bool {
    match expected {
        Ok((walk, index)) => r is Ok && r->Ok_0 == index && after == walk,
        Err(stop) => r is Err && r->Err_0@ == stop,
    }
}

fn nothing_to_build_message(name: &str, root: &str, git_url: Option<&str>) -> (r: String)
    ensures
        git_url is None ==> r@ == resolution::nothing_to_build(name@, root@, None),
        git_url matches Some(url) ==> forall|g: resolution::GitView|
            g.url == url@ ==> r@ == #[trigger] resolution::nothing_to_build(name@, root@, Some(g)),
{
    let mut out = "dependency '".to_owned();
    out.append(name);
    match git_url {
        None => {
            out.append(
                "' has no cook.toml and no supported external build file (CMakeLists.txt or Makefile) in ",
            );
            out.append(root);
        },
        Some(url) => {
            out.append("' from git '");
            out.append(url);
            out.append(
                "' has no cook.toml and no supported external build file (CMakeLists.txt or Makefile)",
            );
        },
    }
    out
}

/// The repository that a dependency was checked out from.
struct GitOrigin {
    url: String,
    requested_rev: String,
    resolved_rev: String,
}

impl View for GitOrigin {
    type V = resolution::GitView;

    closed spec fn view(&self) -> resolution::GitView {
        resolution::GitView {
            url: self.url@,
            requested_rev: self.requested_rev@,
            resolved_rev: self.resolved_rev@,
        }
    }
}

spec fn opt_git(git: Option<GitOrigin>) -> Option<resolution::GitView> {
    match git {
        Some(g) => Some(g@),
        None => None,
    }
}

fn package_source(git: &Option<GitOrigin>, manifest: &str) -> (r: PackageSource)
    ensures
        r@ == resolution::origin(opt_git(*git), manifest@),
{
    match git {
        Some(g) => PackageSource::Git {
            url: g.url.clone(),
            requested_rev: g.requested_rev.clone(),
            resolved_rev: g.resolved_rev.clone(),
        },
        None => PackageSource::Path { manifest: paths::normalize_path(manifest) },
    }
}

/// What the dependency `name` turns out to be after `turn` checkouts, where its
/// directory looks like `seen`.
fn locate_in_directory(
    windows: bool,
    known: &Findings,
    turn: usize,
    seen: &Result<DirectoryFacts, Failure>,
    name: &str,
    want: &config::DependencyDescriptor,
    git: Option<GitOrigin>,
) -> (r: Result<ResolvedManifestKind, Stop>)
    ensures
        match resolution::located_in(
            windows,
            *known,
            turn as int,
            *seen,
            name@,
            want@,
            opt_git(git),
        ) {
            Ok(place) => r is Ok && r->Ok_0@ == place,
            Err(stop) => r is Err && r->Err_0@ == stop,
        },
{
    match seen {
        Err(failure) => Err(Stop::Failed(failure.copied())),
        Ok(found) => {
            if let Some(manifest) = &found.cook_manifest {
                return Ok(
                    ResolvedManifestKind::Cook {
                        manifest: manifest.clone(),
                        source: package_source(&git, manifest.as_str()),
                    },
                );
            }
            match detect_external_build_system(found, want.build_system, windows) {
                None => {
                    let url = match &git {
                        Some(g) => Some(g.url.as_str()),
                        None => None,
                    };
                    Err(
                        failed(
                            nothing_to_build_message(name, found.root.as_str(), url).as_str(),
                        ),
                    )
                },
                Some((build_system, file)) => match known.file(turn, file.as_str()) {
                    None => Err(Stop::Need(Request::File { path: file, turn })),
                    Some(Err(failure)) => Err(Stop::Failed(failure.copied())),
                    Some(Ok(bytes)) => Ok(
                        ResolvedManifestKind::External(
                            ExternalNodeData {
                                root_dir: found.root.clone(),
                                source: package_source(&git, found.root.as_str()),
                                build_system,
                                manifest_path: file,
                                manifest_hash: digest::digest_of_bytes(bytes),
                                name: name.to_owned(),
                                exports: resolve_external_exports(
                                    found.root.as_str(),
                                    &want.export,
                                    windows,
                                ),
                                build: want.build.clone(),
                            },
                        ),
                    ),
                },
            }
        },
    }
}

impl Resolver {
    fn new(options: ResolveOptions, windows: bool) -> (r: Self)
        ensures
            r@ == resolution::start(),
            r.setting() == walk_options(options, windows),
    {
        let r = Resolver {
            options,
            windows,
            states: OrderedMap::new(),
            stack: Vec::new(),
            nodes: Vec::new(),
            index_by_manifest: OrderedMap::new(),
            index_by_external_root: OrderedMap::new(),
            post_order: Vec::new(),
            turn: 0,
        };
        assert(r@ =~= resolution::start());
        r
    }

    spec fn setting(self) -> resolution::WalkOptions {
        walk_options(self.options, self.windows)
    }

    fn render_cycle(&self, back_edge: &str) -> (r: String)
        ensures
            r@ == resolution::cycle(self.windows, self@.stack, back_edge@),
    {
        let ghost all = text::texts(self.stack@);
        let mut pos: usize = 0;
        assert(all.skip(0) == all);
        while pos < self.stack.len() && !text::same_text(self.stack[pos].as_str(), back_edge)
            invariant
                pos <= self.stack@.len(),
                all == text::texts(self.stack@),
                resolution::place(all, back_edge@) == pos + resolution::place(
                    all.skip(pos as int),
                    back_edge@,
                ),
            decreases self.stack.len() - pos,
        {
            assert(all.skip(pos as int).drop_first() == all.skip(pos + 1));
            assert(all.skip(pos as int)[0] == self.stack@[pos as int]@);
            pos += 1;
        }
        assert(pos < self.stack@.len() ==> all.skip(pos as int)[0] == self.stack@[pos as int]@);
        assert(pos == resolution::place(all, back_edge@));
        if pos == self.stack.len() {
            return paths::label_for_manifest(self.windows, back_edge);
        }
        let ghost path = all.skip(pos as int).push(back_edge@);
        let ghost labels_want = path.map_values(
            |m: Seq<char>| paths::manifest_label(self.windows, m),
        );
        let mut labels: Vec<String> = Vec::new();
        let mut i: usize = pos;
        while i < self.stack.len()
            invariant
                pos <= i <= self.stack@.len(),
                all == text::texts(self.stack@),
                labels@.len() == i - pos,
                forall|j: int|
                    0 <= j < i - pos ==> #[trigger] labels@[j]@ == paths::manifest_label(
                        self.windows,
                        all[pos + j],
                    ),
            decreases self.stack.len() - i,
        {
            labels.push(paths::label_for_manifest(self.windows, self.stack[i].as_str()));
            i += 1;
        }
        labels.push(paths::label_for_manifest(self.windows, back_edge));
        assert(text::texts(labels@) =~= labels_want);
        text::join(&labels, " -> ")
    }

    /// What the dependency `name` of the package in `base_dir` turns out to be, and
    /// how many checkouts have been made by then.
    fn resolve_dependency_manifest(
        &self,
        known: &Findings,
        base_dir: &str,
        name: &str,
        spec: &DependencySpec,
    ) -> (r: Result<(ResolvedManifestKind, usize), Stop>)
        ensures
            match resolution::located(
                self.setting(),
                *known,
                self@.turn,
                base_dir@,
                name@,
                config::described(*spec),
            ) {
                Ok(place) => r is Ok && r->Ok_0.0@ == place && r->Ok_0.1 == resolution::turn_after(
                    config::described(*spec),
                    self@.turn,
                ),
                Err(stop) => r is Err && r->Err_0@ == stop,
            },
    {
        let turn = self.turn;
        let descriptor = spec.descriptor();
        match &descriptor.source {
            DependencySource::Path(path) => {
                let dir = paths::join(self.windows, base_dir, path.as_str());
                match known.directory(turn, dir.as_str()) {
                    None => Err(Stop::Need(Request::Directory { path: dir, turn })),
                    Some(seen) => match locate_in_directory(
                        self.windows,
                        known,
                        turn,
                        seen,
                        name,
                        &descriptor,
                        None,
                    ) {
                        Ok(place) => Ok((place, turn)),
                        Err(stop) => Err(stop),
                    },
                }
            },
            DependencySource::Git { url, rev, branch, tag } => {
                if text::blank(url.as_str()) {
                    let mut message = "dependency '".to_owned();
                    message.append(name);
                    message.append("' defines git source with empty URL");
                    return Err(failed(message.as_str()));
                }
                match rev {
                    None => {
                        let mut message = "dependency '".to_owned();
                        message.append(name);
                        message.append(
                            "' uses git source without 'rev'. Pin a commit SHA for reproducible builds",
                        );
                        Err(failed(message.as_str()))
                    },
                    Some(requested) => {
                        let root = self.options.workspace_root.as_str();
                        let windows = self.windows;
                        let cook = paths::join(windows, root, ".cook");
                        let deps = paths::join(windows, cook.as_str(), "deps");
                        let dir = paths::join(windows, deps.as_str(), name);
                        let want = CheckoutRequest {
                            dir,
                            url: url.clone(),
                            rev: requested.clone(),
                            branch: text::copied_opt(branch),
                            tag: text::copied_opt(tag),
                            offline: self.options.offline,
                            windows,
                        };
                        match known.checkout(turn, &want) {
                            None => Err(Stop::Need(Request::Checkout { want, turn })),
                            Some(Err(failure)) => Err(Stop::Failed(failure.copied())),
                            Some(Ok(done)) => {
                                let git = GitOrigin {
                                    url: url.clone(),
                                    requested_rev: requested.clone(),
                                    resolved_rev: done.rev.clone(),
                                };
                                match locate_in_directory(
                                    self.windows,
                                    known,
                                    turn + 1,
                                    &done.directory,
                                    name,
                                    &descriptor,
                                    Some(git),
                                ) {
                                    Ok(place) => Ok((place, turn + 1)),
                                    Err(stop) => Err(stop),
                                }
                            },
                        }
                    },
                }
            },
        }
    }

    /// The number of an external dependency, which is noted if it is new.
    fn intern_external_node(&mut self, data: ExternalNodeData, cpp_standard: &str) -> (r: Result<
        usize,
        Stop,
    >)
        requires
            resolution_laws::sound(old(self)@),
        ensures
            step_result(
                r,
                final(self)@,
                resolution::interned(old(self)@, data@, cpp_standard@),
            ),
            old(self)@.by_external.dom().contains(data@.root_dir) ==> *final(self) == *old(self),
            r is Err ==> *final(self) == *old(self),
            final(self).setting() == old(self).setting(),
    {
        let ghost before = self@;
        if let Some(found) = self.index_by_external_root.get(data.root_dir.as_str()) {
            let idx = *found;
            assert(before.by_external.dom().contains(data@.root_dir));
            assert(before.by_external[data@.root_dir] == idx);
            assert(before.nodes[idx as int] == self.nodes@[idx as int]@);
            if !self.nodes[idx].exports.same(&data.exports) || !self.nodes[idx].build.same(
                &data.build,
            ) {
                let mut message = "dependency '".to_owned();
                message.append(data.name.as_str());
                message.append("' declares conflicting build metadata for external source ");
                message.append(data.root_dir.as_str());
                return Err(failed(message.as_str()));
            }
            return Ok(idx);
        }
        assert(!before.by_external.dom().contains(data@.root_dir));
        let ghost new_node = resolution::external_node(data@, cpp_standard@);
        let abi = AbiProfile::default();
        let abi_fingerprint = abi::build_abi_fingerprint(cpp_standard, &abi);
        let idx = self.nodes.len();
        let key = data.root_dir.clone();
        let node = InternalNode {
            name: data.name,
            root_dir: data.root_dir,
            source: data.source,
            abi,
            abi_fingerprint,
            external_build_system: Some(data.build_system),
            external_manifest_path: Some(data.manifest_path),
            external_manifest_hash: Some(data.manifest_hash),
            exports: data.exports,
            build: data.build,
            dependencies: Vec::new(),
        };
        assert(node@ =~= new_node);
        self.nodes.push(node);
        self.index_by_external_root.insert(key, idx);
        self.post_order.push(idx);
        proof {
            let after = resolution::interned(before, data@, cpp_standard@)->Ok_0.0;
            assert(self@.nodes =~= after.nodes);
            assert(self@.by_external =~= after.by_external);
            assert(self@.post_order =~= after.post_order);
        }
        Ok(idx)
    }

    /// Visits the package of a manifest, unless that has been done.
    fn visit(&mut self, known: &Findings, manifest_path: &str, source: PackageSource) -> (r: Result<
        usize,
        Stop,
    >)
        requires
            resolution_laws::sound(old(self)@),
        ensures
            step_result(
                r,
                final(self)@,
                resolution::visited(
                    old(self).setting(),
                    *known,
                    old(self)@,
                    manifest_path@,
                    source@,
                ),
            ),
            old(self)@.states.dom().contains(manifest_path@) ==> *final(self) == *old(self),
            final(self).setting() == old(self).setting(),
        decreases resolution::unvisited(*known, old(self)@), 0int,
    {
        let ghost before = self@;
        let ghost options = self.setting();
        if let Some(state) = self.states.get(manifest_path) {
            assert(before.states.dom().contains(manifest_path@));
            match state {
                VisitState::Visited => {
                    return match self.index_by_manifest.get(manifest_path) {
                        Some(index) => {
                            assert(before.by_manifest.dom().contains(manifest_path@));
                            Ok(*index)
                        },
                        None => {
                            assert(!before.by_manifest.dom().contains(manifest_path@));
                            Err(failed("missing index for visited dependency"))
                        },
                    };
                },
                VisitState::Visiting => {
                    let mut message = "dependency cycle detected: ".to_owned();
                    message.append(self.render_cycle(manifest_path).as_str());
                    return Err(failed(message.as_str()));
                },
            }
        }
        assert(!before.states.dom().contains(manifest_path@));
        let cfg = match known.manifests.get(manifest_path) {
            None => {
                return Err(Stop::Need(Request::Manifest(manifest_path.to_owned())));
            },
            Some(Err(failure)) => {
                return Err(Stop::Failed(failure.copied()));
            },
            Some(Ok(cfg)) => cfg,
        };
        let root_dir = match paths::parent_of(self.windows, manifest_path) {
            None => {
                return Err(failed("manifest path has no parent directory"));
            },
            Some(dir) => dir,
        };
        let ghost new_node = resolution::cook_node(*cfg, root_dir@, source@);
        let ghost inside = resolution::entered(before, manifest_path@, new_node);
        self.states.insert(manifest_path.to_owned(), VisitState::Visiting);
        self.stack.push(manifest_path.to_owned());
        let current_idx = self.nodes.len();
        let node = InternalNode {
            name: cfg.project.name.clone(),
            root_dir: root_dir.clone(),
            source,
            abi: cfg.project.abi.clone(),
            abi_fingerprint: abi::build_abi_fingerprint(
                cfg.project.cpp_standard.as_str(),
                &cfg.project.abi,
            ),
            external_build_system: None,
            external_manifest_path: None,
            external_manifest_hash: None,
            exports: ResolvedExports::default(),
            build: DependencyBuildControls::default(),
            dependencies: Vec::new(),
        };
        assert(node@ =~= new_node);
        self.nodes.push(node);
        self.index_by_manifest.insert(manifest_path.to_owned(), current_idx);
        proof {
            assert(self@.states =~= inside.states);
            assert(self@.stack =~= inside.stack);
            assert(self@.nodes =~= inside.nodes);
            assert(self@.by_manifest =~= inside.by_manifest);
            resolution_laws::lemma_entered_sound(before, manifest_path@, new_node);
            resolution::lemma_entering_counts(*known, before, inside, manifest_path@);
            assert(inside.by_manifest.dom().contains(manifest_path@));
            resolution_laws::uses_only_grow(
                options,
                *known,
                inside,
                manifest_path@,
                current_idx as int,
                *cfg,
                root_dir@,
                0,
            );
        }
        if let Err(stop) = self.visit_dependencies(
            known,
            manifest_path,
            current_idx,
            cfg,
            root_dir.as_str(),
        ) {
            return Err(stop);
        }
        let ghost after = self@;
        self.stack.pop();
        self.states.insert(manifest_path.to_owned(), VisitState::Visited);
        self.post_order.push(current_idx);
        proof {
            let done = resolution::left(after, manifest_path@, current_idx as int);
            assert(self@.states =~= done.states);
            assert(self@.stack =~= done.stack);
            assert(self@.post_order =~= done.post_order);
        }
        Ok(current_idx)
    }

    /// Visits the dependencies of the package with the number `current_idx`.
    fn visit_dependencies(
        &mut self,
        known: &Findings,
        manifest_path: &str,
        current_idx: usize,
        cfg: &CookConfig,
        root_dir: &str,
    ) -> (r: Result<(), Stop>)
        requires
            resolution_laws::sound(old(self)@),
            old(self)@.stack.len() > 0,
            old(self)@.stack.last() == manifest_path@,
            old(self)@.by_manifest.dom().contains(manifest_path@),
            old(self)@.by_manifest[manifest_path@] == current_idx,
            old(self)@.nodes[current_idx as int].abi == cfg.project.abi@,
        ensures
            match resolution::visited_dependencies(
                old(self).setting(),
                *known,
                old(self)@,
                current_idx as int,
                *cfg,
                root_dir@,
                0,
            ) {
                Ok(walk) => r is Ok && final(self)@ == walk,
                Err(stop) => r is Err && r->Err_0@ == stop,
            },
            final(self).setting() == old(self).setting(),
        decreases resolution::unvisited(*known, old(self)@), 1int,
    {
        let ghost start = self@;
        let ghost options = self.setting();
        let count = cfg.dependencies.len();
        let mut i: usize = 0;
        while i < count
            invariant
                i <= count == cfg.dependencies@.len(),
                start == old(self)@,
                options == old(self).setting(),
                self.setting() == old(self).setting(),
                resolution_laws::sound(self@),
                self@.stack.len() > 0,
                self@.stack.last() == manifest_path@,
                self@.by_manifest.dom().contains(manifest_path@),
                self@.by_manifest[manifest_path@] == current_idx,
                self@.nodes[current_idx as int].abi == cfg.project.abi@,
                resolution::unvisited(*known, self@) <= resolution::unvisited(*known, start),
                resolution::visited_dependencies(
                    options,
                    *known,
                    start,
                    current_idx as int,
                    *cfg,
                    root_dir@,
                    0,
                ) == resolution::visited_dependencies(
                    options,
                    *known,
                    self@,
                    current_idx as int,
                    *cfg,
                    root_dir@,
                    i as nat,
                ),
            decreases count - i,
        {
            let ghost walk = self@;
            let alias = cfg.dependencies.key_at(i);
            let spec = cfg.dependencies.value_at(i);
            let descriptor = spec.descriptor();
            let (place, turn) = match self.resolve_dependency_manifest(
                known,
                root_dir,
                alias.as_str(),
                spec,
            ) {
                Ok(found) => found,
                Err(stop) => {
                    return Err(stop);
                },
            };
            self.turn = turn;
            let ghost here = resolution::turned(walk, turn as int);
            assert(self@ =~= here);
            proof {
                resolution_laws::lemma_turned_sound(*known, walk, turn as int);
            }
            let step = match place {
                ResolvedManifestKind::Cook { manifest, source } => {
                    proof {
                        resolution_laws::walk_only_grows(
                            options,
                            *known,
                            here,
                            manifest@,
                            source@,
                        );
                    }
                    self.visit(known, manifest.as_str(), source)
                },
                ResolvedManifestKind::External(data) => {
                    proof {
                        resolution_laws::lemma_interned_sound(
                            here,
                            data@,
                            cfg.project.cpp_standard@,
                        );
                    }
                    self.intern_external_node(data, cfg.project.cpp_standard.as_str())
                },
            };
            let dep_idx = match step {
                Ok(index) => index,
                Err(stop) => {
                    return Err(stop);
                },
            };
            let ghost next = self@;
            assert(next.nodes[dep_idx as int] == self.nodes@[dep_idx as int]@);
            let child_name = self.nodes[dep_idx].name.as_str();
            proof {
                abi::conflict_iff_misfit(
                    abi::AbiPair {
                        parent: cfg.project.name@,
                        child: child_name@,
                        context: "parent-child"@,
                    },
                    cfg.project.abi@,
                    next.nodes[dep_idx as int].abi,
                );
                abi::conflict_iff_misfit(
                    abi::AbiPair {
                        parent: alias@,
                        child: child_name@,
                        context: "dependency-constraint"@,
                    },
                    descriptor@.abi,
                    next.nodes[dep_idx as int].abi,
                );
            }
            if let Err(failure) = abi::validate_abi_compatibility(
                cfg.project.name.as_str(),
                &cfg.project.abi,
                child_name,
                &self.nodes[dep_idx].abi,
                "parent-child",
            ) {
                return Err(Stop::Failed(failure));
            }
            if let Err(failure) = abi::validate_abi_compatibility(
                alias.as_str(),
                &descriptor.abi,
                child_name,
                &self.nodes[dep_idx].abi,
                "dependency-constraint",
            ) {
                return Err(Stop::Failed(failure));
            }
            proof {
                assert(next.stack[next.stack.len() - 1] == manifest_path@);
                assert(next.by_manifest.dom().contains(manifest_path@));
                assert(next.states.dom().contains(manifest_path@));
                resolution_laws::lemma_grows_transitive(walk, here, next, -1);
                resolution_laws::lemma_grows_weaken(walk, next, current_idx as int);
                resolution_laws::lemma_linked_sound(
                    next,
                    current_idx as int,
                    dep_idx as int,
                    descriptor.visibility,
                );
                let after = resolution::linked(
                    next,
                    current_idx as int,
                    dep_idx as int,
                    descriptor.visibility,
                );
                resolution_laws::lemma_grows_transitive(walk, next, after, current_idx as int);
                resolution_laws::lemma_grows_counts(*known, walk, after, current_idx as int);
            }
            self.link(current_idx, dep_idx, descriptor.visibility);
            i += 1;
        }
        Ok(())
    }

    /// Notes that one package uses another.
    fn link(&mut self, current_idx: usize, dep_idx: usize, visibility: DependencyVisibility)
        requires
            current_idx < old(self)@.nodes.len(),
        ensures
            final(self)@ == resolution::linked(
                old(self)@,
                current_idx as int,
                dep_idx as int,
                visibility,
            ),
            final(self).setting() == old(self).setting(),
    {
        let ghost before = self@;
        let ghost node = before.nodes[current_idx as int];
        let mut i: usize = 0;
        while i < self.nodes[current_idx].dependencies.len()
            invariant
                before == old(self)@,
                self@ == before,
                self.setting() == old(self).setting(),
                current_idx < self.nodes@.len(),
                node == self.nodes@[current_idx as int]@,
                node == before.nodes[current_idx as int],
                i <= node.dependencies.len(),
                forall|j: int| 0 <= j < i ==> node.dependencies[j].target != dep_idx,
            decreases node.dependencies.len() - i,
        {
            if self.nodes[current_idx].dependencies[i].target_idx == dep_idx {
                assert(node.dependencies[i as int].target == dep_idx);
                assert(resolution::links_to(node, dep_idx as int));
                return;
            }
            assert(node.dependencies[i as int].target != dep_idx);
            i += 1;
        }
        assert(!resolution::links_to(node, dep_idx as int));
        self.nodes[current_idx].dependencies.push(
            InternalEdge { target_idx: dep_idx, visibility },
        );
        proof {
            let after = resolution::linked(
                before,
                current_idx as int,
                dep_idx as int,
                visibility,
            );
            assert(self@.nodes[current_idx as int] =~= after.nodes[current_idx as int]);
            assert(self@.nodes =~= after.nodes);
        }
    }
}

fn normalize_opt(path: &Option<String>) -> (r: Option<String>)
    ensures
        text::opt_text(r) == resolution::normalized_opt(text::opt_text(*path)),
{
    match path {
        Some(p) => Some(paths::normalize_path(p.as_str())),
        None => None,
    }
}

fn package_edges(nodes: &Vec<InternalNode>, index: usize) -> (r: Vec<ResolvedEdge>)
    requires
        index < nodes@.len(),
        forall|e: int|
            0 <= e < nodes@[index as int].dependencies@.len()
                ==> (#[trigger] nodes@[index as int].dependencies@[e]).target_idx < nodes@.len(),
    ensures
        packages::edge_views(r@) == node_views(nodes@)[index as int].dependencies.map_values(
            |link: resolution::LinkView| resolution::edge_of(node_views(nodes@), link),
        ),
{
    let links = &nodes[index].dependencies;
    let mut out: Vec<ResolvedEdge> = Vec::new();
    let mut i: usize = 0;
    while i < links.len()
        invariant
            i <= links@.len(),
            out@.len() == i,
            forall|e: int|
                0 <= e < links@.len() ==> (#[trigger] links@[e]).target_idx < nodes@.len(),
            forall|e: int|
                0 <= e < i ==> #[trigger] out@[e]@ == resolution::edge_of(
                    node_views(nodes@),
                    links@[e]@,
                ),
        decreases links.len() - i,
    {
        let edge = ResolvedEdge {
            name: nodes[links[i].target_idx].name.clone(),
            visibility: links[i].visibility,
        };
        out.push(edge);
        i += 1;
    }
    assert(packages::edge_views(out@) =~= node_views(nodes@)[index as int].dependencies.map_values(
        |link: resolution::LinkView| resolution::edge_of(node_views(nodes@), link),
    ));
    out
}

/// Whether all links of all nodes lead to nodes.
spec fn links_in_range(nodes: Seq<InternalNode>) -> bool {
    forall|i: int, e: int|
        0 <= i < nodes.len() && 0 <= e < nodes[i].dependencies@.len() ==> (
        #[trigger] nodes[i].dependencies@[e]).target_idx < nodes.len()
}

fn resolved_packages(nodes: &Vec<InternalNode>) -> (r: Vec<ResolvedPackage>)
    requires
        links_in_range(nodes@),
    ensures
        packages::package_views(r@) == node_views(nodes@).map_values(
            |node: resolution::NodeView| resolution::package_of(node_views(nodes@), node),
        ),
{
    let mut out: Vec<ResolvedPackage> = Vec::new();
    let mut i: usize = 0;
    while i < nodes.len()
        invariant
            i <= nodes@.len(),
            out@.len() == i,
            links_in_range(nodes@),
            forall|j: int|
                0 <= j < i ==> #[trigger] out@[j]@ == resolution::package_of(
                    node_views(nodes@),
                    node_views(nodes@)[j],
                ),
        decreases nodes.len() - i,
    {
        let node = &nodes[i];
        let package = ResolvedPackage {
            name: node.name.clone(),
            root_dir: paths::normalize_path(node.root_dir.as_str()),
            source: node.source.clone(),
            dependencies: package_edges(nodes, i),
            abi_fingerprint: node.abi_fingerprint.clone(),
            external_build_system: node.external_build_system,
            external_manifest_path: normalize_opt(&node.external_manifest_path),
            external_manifest_hash: text::copied_opt(&node.external_manifest_hash),
            exports: node.exports.clone(),
            build: node.build.clone(),
        };
        assert(node_views(nodes@)[i as int] == node@);
        out.push(package);
        i += 1;
    }
    assert(packages::package_views(out@) =~= node_views(nodes@).map_values(
        |node: resolution::NodeView| resolution::package_of(node_views(nodes@), node),
    ));
    out
}

fn resolved_dependencies(nodes: &Vec<InternalNode>, root: usize) -> (r: Vec<ResolvedDependency>)
    requires
        links_in_range(nodes@),
        root < nodes@.len(),
    ensures
        packages::dependency_views(r@) == node_views(nodes@)[root as int].dependencies.map_values(
            |link: resolution::LinkView| resolution::dependency_of(node_views(nodes@), link),
        ),
{
    let links = &nodes[root].dependencies;
    let mut out: Vec<ResolvedDependency> = Vec::new();
    let mut i: usize = 0;
    while i < links.len()
        invariant
            i <= links@.len(),
            out@.len() == i,
            root < nodes@.len(),
            *links == nodes@[root as int].dependencies,
            links_in_range(nodes@),
            forall|j: int|
                0 <= j < i ==> #[trigger] out@[j]@ == resolution::dependency_of(
                    node_views(nodes@),
                    links@[j]@,
                ),
        decreases links.len() - i,
    {
        assert(nodes@[root as int].dependencies@[i as int].target_idx < nodes@.len());
        let node = &nodes[links[i].target_idx];
        let dependency = ResolvedDependency {
            name: node.name.clone(),
            root_dir: paths::normalize_path(node.root_dir.as_str()),
            visibility: links[i].visibility,
            abi_fingerprint: node.abi_fingerprint.clone(),
            external_build_system: node.external_build_system,
            external_manifest_path: normalize_opt(&node.external_manifest_path),
            external_manifest_hash: text::copied_opt(&node.external_manifest_hash),
            exports: node.exports.clone(),
            build: node.build.clone(),
        };
        assert(node_views(nodes@)[links@[i as int].target_idx as int] == node@);
        out.push(dependency);
        i += 1;
    }
    assert(packages::dependency_views(out@)
        =~= node_views(nodes@)[root as int].dependencies.map_values(
        |link: resolution::LinkView| resolution::dependency_of(node_views(nodes@), link),
    ));
    out
}

fn build_order_names(nodes: &Vec<InternalNode>, order: &Vec<usize>, root: usize) -> (r: Vec<String>)
    requires
        forall|p: int| 0 <= p < order@.len() ==> #[trigger] order@[p] < nodes@.len(),
    ensures
        text::texts(r@) == resolution::others(number_list(order@), root as int).map_values(
            |i: int| node_views(nodes@)[i].name,
        ),
{
    let ghost all = number_list(order@);
    let mut out: Vec<String> = Vec::new();
    let mut i: usize = 0;
    assert(text::texts(out@) =~= resolution::others(all.take(0), root as int).map_values(
        |i: int| node_views(nodes@)[i].name,
    ));
    while i < order.len()
        invariant
            i <= order@.len(),
            all == number_list(order@),
            forall|p: int| 0 <= p < order@.len() ==> #[trigger] order@[p] < nodes@.len(),
            text::texts(out@) == resolution::others(all.take(i as int), root as int).map_values(
                |i: int| node_views(nodes@)[i].name,
            ),
        decreases order.len() - i,
    {
        let ghost before = text::texts(out@);
        assert(all.take(i + 1).drop_last() == all.take(i as int));
        if order[i] != root {
            out.push(nodes[order[i]].name.clone());
            assert(text::texts(out@) =~= before.push(node_views(nodes@)[all[i as int]].name));
            assert(resolution::others(all.take(i + 1), root as int).map_values(
                |i: int| node_views(nodes@)[i].name,
            ) =~= before.push(node_views(nodes@)[all[i as int]].name));
        }
        i += 1;
    }
    assert(all.take(order@.len() as int) == all);
    out
}

/// All packages that the project with the manifest `manifest_path` needs, as far
/// as `known` tells.
///
/// `manifest_path` is the path of the manifest with links resolved. Paths follow the
/// rules of Windows if `windows` says so.
pub fn resolve_from_manifest(
    manifest_path: &str,
    options: ResolveOptions,
    known: &Findings,
    windows: bool,
) -> (r: Result<ResolutionResult, Stop>)
    ensures
        match resolution::resolved(walk_options(options, windows), *known, manifest_path@) {
            Ok(result) => r is Ok && r->Ok_0@ == result,
            Err(stop) => r is Err && r->Err_0@ == stop,
        },
{
    let ghost opts = walk_options(options, windows);
    let mut resolver = Resolver::new(options, windows);
    proof {
        resolution_laws::lemma_start_sound();
        resolution_laws::walk_only_grows(
            opts,
            *known,
            resolution::start(),
            manifest_path@,
            packages::OriginView::Root,
        );
    }
    let root_idx = match resolver.visit(known, manifest_path, PackageSource::Root) {
        Ok(index) => index,
        Err(stop) => {
            return Err(stop);
        },
    };
    let ghost walk = resolver@;
    assert forall|i: int, e: int|
        0 <= i < resolver.nodes@.len() && 0 <= e
            < resolver.nodes@[i].dependencies@.len() implies (
    #[trigger] resolver.nodes@[i].dependencies@[e]).target_idx < resolver.nodes@.len() by {
        assert(resolution_laws::links_sound(walk, i));
        assert(walk.nodes[i].dependencies[e].target
            == resolver.nodes@[i].dependencies@[e].target_idx);
    }
    assert forall|p: int| 0 <= p < resolver.post_order@.len() implies #[trigger] resolver.post_order@[p]
        < resolver.nodes@.len() by {
        assert(walk.post_order[p] == resolver.post_order@[p]);
    }
    let result = ResolutionResult {
        packages: resolved_packages(&resolver.nodes),
        direct_dependencies: resolved_dependencies(&resolver.nodes, root_idx),
        build_order: build_order_names(&resolver.nodes, &resolver.post_order, root_idx),
    };
    assert(result@ =~= resolution::summary(walk, root_idx as int));
    Ok(result)
}

}
