//! What a resolution is: a walk through the dependency graph that enters every
//! package once and leaves it after all packages that it uses.
use vstd::prelude::*;

use crate::abi;
use crate::config;
use crate::config::{CookConfig, DependencyBuildSystem, DependencyVisibility};
use crate::digest;
use crate::failure::Failure;
use crate::findings;
use crate::findings::{DirectoryFacts, Findings};
use crate::ordered_map;
use crate::packages;
use crate::packages::ExternalBuildSystem;
use crate::paths;
use crate::text;

verus! {

broadcast use vstd::string::group_string_axioms;

// ---------------------------------------------------------------------------
// The state of the walk
// ---------------------------------------------------------------------------

/// Whether a package has been entered only, or left as well.
#[derive(Debug, Clone, Copy, PartialEq, Eq, Structural)]
pub enum VisitState {
    Visiting,
    Visited,
}

/// A package's use of the package with the number `target`.
#[verifier::ext_equal]
pub struct LinkView {
    pub target: int,
    pub visibility: DependencyVisibility,
}

/// A package that has been entered.
#[verifier::ext_equal]
pub struct NodeView {
    pub name: Seq<char>,
    pub root_dir: Seq<char>,
    pub source: packages::OriginView,
    pub abi: config::AbiView,
    pub abi_fingerprint: Seq<char>,
    pub external_build_system: Option<ExternalBuildSystem>,
    pub external_manifest_path: Option<Seq<char>>,
    pub external_manifest_hash: Option<Seq<char>>,
    pub exports: config::ExportView,
    pub build: config::ControlsView,
    pub dependencies: Seq<LinkView>,
}

/// The state of the walk.
#[verifier::ext_equal]
pub struct WalkView {
    pub states: Map<Seq<char>, VisitState>,
    pub stack: Seq<Seq<char>>,
    pub nodes: Seq<NodeView>,
    pub by_manifest: Map<Seq<char>, int>,
    pub by_external: Map<Seq<char>, int>,
    pub post_order: Seq<int>,
    /// How many checkouts have been made.
    pub turn: int,
}

/// What the walk is told from outside.
pub struct WalkOptions {
    pub workspace_root: Seq<char>,
    pub offline: bool,
    /// Paths follow the rules of Windows.
    pub windows: bool,
}

/// Before the first package.
pub open spec fn start() -> WalkView {
    WalkView {
        states: Map::empty(),
        stack: Seq::empty(),
        nodes: Seq::empty(),
        by_manifest: Map::empty(),
        by_external: Map::empty(),
        post_order: Seq::empty(),
        turn: 0,
    }
}

// ---------------------------------------------------------------------------
// Where a dependency is found
// ---------------------------------------------------------------------------

/// A package without `cook.toml`.
#[verifier::ext_equal]
pub struct ExternalView {
    pub root_dir: Seq<char>,
    pub source: packages::OriginView,
    pub build_system: ExternalBuildSystem,
    pub manifest_path: Seq<char>,
    pub manifest_hash: Seq<char>,
    pub name: Seq<char>,
    pub exports: config::ExportView,
    pub build: config::ControlsView,
}

/// What a dependency turns out to be.
#[verifier::ext_equal]
pub enum LocatedView {
    Cook { manifest: Seq<char>, source: packages::OriginView },
    External(ExternalView),
}

/// The repository that a dependency was checked out from.
#[verifier::ext_equal]
pub struct GitView {
    pub url: Seq<char>,
    pub requested_rev: Seq<char>,
    pub resolved_rev: Seq<char>,
}

/// The build system and the build file that a directory offers to someone who
/// prefers `preference`.
pub open spec fn detected(
    windows: bool,
    found: DirectoryFacts,
    preference: DependencyBuildSystem,
) -> Option<(ExternalBuildSystem, Seq<char>)> {
    let root = found.root@;
    let cmake = Some(
        (ExternalBuildSystem::Cmake, paths::path_join(windows, root, "CMakeLists.txt"@)),
    );
    let make = Some((ExternalBuildSystem::Make, paths::path_join(windows, root, "Makefile"@)));
    let lower = Some((ExternalBuildSystem::Make, paths::path_join(windows, root, "makefile"@)));
    if preference != DependencyBuildSystem::Make && found.cmake_lists {
        cmake
    } else if preference != DependencyBuildSystem::Cmake && found.makefile {
        make
    } else if preference != DependencyBuildSystem::Cmake && found.lower_makefile {
        lower
    } else {
        None
    }
}

/// An exported directory as a full path.
pub open spec fn export_dir(windows: bool, root: Seq<char>, value: Seq<char>) -> Seq<char> {
    paths::normalized(paths::path_join(windows, root, value))
}

/// An exported library: a path if it looks like one, else a name.
pub open spec fn export_lib(windows: bool, root: Seq<char>, value: Seq<char>) -> Seq<char> {
    if paths::is_absolute(windows, value) || "."@.is_prefix_of(value) || value.contains('/')
        || value.contains('\\') {
        paths::normalized(paths::path_join(windows, root, value))
    } else {
        value
    }
}

/// What a package exports, seen from outside.
pub open spec fn full_exports(
    windows: bool,
    root: Seq<char>,
    export: config::ExportView,
) -> config::ExportView {
    config::ExportView {
        include_dirs: export.include_dirs.map_values(|v: Seq<char>| export_dir(windows, root, v)),
        lib_dirs: export.lib_dirs.map_values(|v: Seq<char>| export_dir(windows, root, v)),
        libs: export.libs.map_values(|v: Seq<char>| export_lib(windows, root, v)),
    }
}

/// The complaint about a directory in which nothing can be built.
pub open spec fn nothing_to_build(
    name: Seq<char>,
    root: Seq<char>,
    git: Option<GitView>,
) -> Seq<char> {
    match git {
        None => "dependency '"@ + name
            + "' has no cook.toml and no supported external build file (CMakeLists.txt or Makefile) in "@
            + root,
        Some(g) => "dependency '"@ + name + "' from git '"@ + g.url
            + "' has no cook.toml and no supported external build file (CMakeLists.txt or Makefile)"@,
    }
}

/// The origin of a package that `git` or else the path `manifest` led to.
pub open spec fn origin(git: Option<GitView>, manifest: Seq<char>) -> packages::OriginView {
    match git {
        Some(g) => packages::OriginView::Git {
            url: g.url,
            requested_rev: g.requested_rev,
            resolved_rev: g.resolved_rev,
        },
        None => packages::OriginView::Path { manifest: paths::normalized(manifest) },
    }
}

/// What the dependency `name` turns out to be after `turn` checkouts, where its
/// directory looks like `seen`.
pub open spec fn located_in(
    windows: bool,
    known: Findings,
    turn: int,
    seen: Result<DirectoryFacts, Failure>,
    name: Seq<char>,
    want: config::DescriptorView,
    git: Option<GitView>,
) -> Result<LocatedView, findings::StopView> {
    match seen {
        Err(failure) => Err(findings::StopView::Failed(failure@)),
        Ok(found) => match found.cook_manifest {
            Some(manifest) => Ok(
                LocatedView::Cook { manifest: manifest@, source: origin(git, manifest@) },
            ),
            None => match detected(windows, found, want.build_system) {
                None => Err(findings::StopView::Failed(nothing_to_build(name, found.root@, git))),
                Some((system, file)) => match findings::file_seen(known, turn, file) {
                    None => Err(
                        findings::StopView::Need(findings::RequestView::File { path: file, turn }),
                    ),
                    Some(Err(failure)) => Err(findings::StopView::Failed(failure@)),
                    Some(Ok(bytes)) => Ok(
                        LocatedView::External(
                            ExternalView {
                                root_dir: found.root@,
                                source: origin(git, found.root@),
                                build_system: system,
                                manifest_path: file,
                                manifest_hash: digest::sha256_hex_of(bytes@),
                                name,
                                exports: full_exports(windows, found.root@, want.export),
                                build: want.build,
                            },
                        ),
                    ),
                },
            },
        },
    }
}

/// Where the dependency `name` is checked out.
pub open spec fn checkout_dir(windows: bool, workspace_root: Seq<char>, name: Seq<char>) -> Seq<
    char,
> {
    let cook = paths::path_join(windows, workspace_root, ".cook"@);
    paths::path_join(windows, paths::path_join(windows, cook, "deps"@), name)
}

/// What the dependency `name`, used by the package in `base_dir`, turns out to be
/// when it is looked at after `turn` checkouts.
pub open spec fn located(
    options: WalkOptions,
    known: Findings,
    turn: int,
    base_dir: Seq<char>,
    name: Seq<char>,
    want: config::DescriptorView,
) -> Result<LocatedView, findings::StopView> {
    match want.source {
        config::SourceView::Path(path) => {
            let dir = paths::path_join(options.windows, base_dir, path);
            match findings::directory_seen(known, turn, dir) {
                None => Err(
                    findings::StopView::Need(
                        findings::RequestView::Directory { path: dir, turn },
                    ),
                ),
                Some(seen) => located_in(options.windows, known, turn, seen, name, want, None),
            }
        },
        config::SourceView::Git { url, rev, branch, tag } => if text::trimmed(url).len() == 0 {
            Err(
                findings::StopView::Failed(
                    "dependency '"@ + name + "' defines git source with empty URL"@,
                ),
            )
        } else {
            match rev {
                None => Err(
                    findings::StopView::Failed(
                        "dependency '"@ + name
                            + "' uses git source without 'rev'. Pin a commit SHA for reproducible builds"@,
                    ),
                ),
                Some(rev) => {
                    let dir = checkout_dir(options.windows, options.workspace_root, name);
                    let want_checkout = findings::CheckoutView {
                        dir,
                        url,
                        rev,
                        branch,
                        tag,
                        offline: options.offline,
                        windows: options.windows,
                    };
                    match findings::checkout_answer(known, turn, want_checkout) {
                        None => Err(
                            findings::StopView::Need(
                                findings::RequestView::Checkout { want: want_checkout, turn },
                            ),
                        ),
                        Some(Err(failure)) => Err(findings::StopView::Failed(failure@)),
                        Some(Ok(done)) => located_in(
                            options.windows,
                            known,
                            turn + 1,
                            done.directory,
                            name,
                            want,
                            Some(
                                GitView { url, requested_rev: rev, resolved_rev: done.rev@ },
                            ),
                        ),
                    }
                },
            }
        },
    }
}

/// How many checkouts have been made once a dependency has been looked at.
pub open spec fn turn_after(want: config::DescriptorView, turn: int) -> int {
    match want.source {
        config::SourceView::Path(_) => turn,
        config::SourceView::Git { .. } => turn + 1,
    }
}

// ---------------------------------------------------------------------------
// The walk
// ---------------------------------------------------------------------------

/// The walk when `turn` checkouts have been made.
pub open spec fn turned(walk: WalkView, turn: int) -> WalkView {
    WalkView { turn, ..walk }
}

/// The first place of `item` in `list`, or its length.
pub open spec fn place(list: Seq<Seq<char>>, item: Seq<char>) -> int
    decreases list.len(),
{
    if list.len() == 0 || list[0] == item {
        0
    } else {
        1 + place(list.drop_first(), item)
    }
}

/// How a cycle that comes back to `manifest` is shown.
pub open spec fn cycle(windows: bool, stack: Seq<Seq<char>>, manifest: Seq<char>) -> Seq<char> {
    let p = place(stack, manifest);
    if p < stack.len() {
        text::joined(
            stack.skip(p).push(manifest).map_values(|m: Seq<char>| paths::manifest_label(windows, m)),
            " -> "@,
        )
    } else {
        paths::manifest_label(windows, manifest)
    }
}

/// The package of a manifest.
pub open spec fn cook_node(
    cfg: CookConfig,
    root_dir: Seq<char>,
    source: packages::OriginView,
) -> NodeView {
    NodeView {
        name: cfg.project.name@,
        root_dir,
        source,
        abi: cfg.project.abi@,
        abi_fingerprint: abi::abi_fingerprint(cfg.project.cpp_standard@, cfg.project.abi@),
        external_build_system: None,
        external_manifest_path: None,
        external_manifest_hash: None,
        exports: config::no_exports(),
        build: config::plain_controls(),
        dependencies: Seq::empty(),
    }
}

/// The package of an external dependency.
pub open spec fn external_node(data: ExternalView, cpp_standard: Seq<char>) -> NodeView {
    NodeView {
        name: data.name,
        root_dir: data.root_dir,
        source: data.source,
        abi: config::open_abi(),
        abi_fingerprint: abi::abi_fingerprint(cpp_standard, config::open_abi()),
        external_build_system: Some(data.build_system),
        external_manifest_path: Some(data.manifest_path),
        external_manifest_hash: Some(data.manifest_hash),
        exports: data.exports,
        build: data.build,
        dependencies: Seq::empty(),
    }
}

/// After the package `node` of `manifest` has been entered.
pub open spec fn entered(walk: WalkView, manifest: Seq<char>, node: NodeView) -> WalkView {
    WalkView {
        states: walk.states.insert(manifest, VisitState::Visiting),
        stack: walk.stack.push(manifest),
        nodes: walk.nodes.push(node),
        by_manifest: walk.by_manifest.insert(manifest, walk.nodes.len() as int),
        by_external: walk.by_external,
        post_order: walk.post_order,
        turn: walk.turn,
    }
}

/// After the package of `manifest` with the number `index` has been left.
pub open spec fn left(walk: WalkView, manifest: Seq<char>, index: int) -> WalkView {
    WalkView {
        states: walk.states.insert(manifest, VisitState::Visited),
        stack: walk.stack.drop_last(),
        nodes: walk.nodes,
        by_manifest: walk.by_manifest,
        by_external: walk.by_external,
        post_order: walk.post_order.push(index),
        turn: walk.turn,
    }
}

/// Whether a package uses the package `target` already.
pub open spec fn links_to(node: NodeView, target: int) -> bool {
    exists|i: int| 0 <= i < node.dependencies.len() && node.dependencies[i].target == target
}

/// After the package `index` has been noted to use `target`.
pub open spec fn linked(
    walk: WalkView,
    index: int,
    target: int,
    visibility: DependencyVisibility,
) -> WalkView {
    let node = walk.nodes[index];
    if links_to(node, target) {
        walk
    } else {
        WalkView {
            nodes: walk.nodes.update(
                index,
                NodeView {
                    dependencies: node.dependencies.push(LinkView { target, visibility }),
                    ..node
                },
            ),
            ..walk
        }
    }
}

/// The number of an external dependency, which is noted if it is new.
pub open spec fn interned(
    walk: WalkView,
    data: ExternalView,
    cpp_standard: Seq<char>,
) -> Result<(WalkView, int), findings::StopView> {
    if walk.by_external.dom().contains(data.root_dir) {
        let index = walk.by_external[data.root_dir];
        let node = walk.nodes[index];
        if node.exports != data.exports || node.build != data.build {
            Err(
                findings::StopView::Failed(
                    "dependency '"@ + data.name
                        + "' declares conflicting build metadata for external source "@
                        + data.root_dir,
                ),
            )
        } else {
            Ok((walk, index))
        }
    } else {
        let index = walk.nodes.len() as int;
        Ok(
            (
                WalkView {
                    nodes: walk.nodes.push(external_node(data, cpp_standard)),
                    by_external: walk.by_external.insert(data.root_dir, index),
                    post_order: walk.post_order.push(index),
                    ..walk
                },
                index,
            ),
        )
    }
}

/// The manifests whose contents are known.
pub open spec fn known_manifests(known: Findings) -> Set<Seq<char>> {
    known.manifests@.map_values(
        |e: (Seq<char>, Result<CookConfig, Failure>)| e.0,
    ).to_set()
}

/// How many known manifests have not been entered.
pub open spec fn unvisited(known: Findings, walk: WalkView) -> nat {
    known_manifests(known).difference(walk.states.dom()).len()
}

pub proof fn lemma_entering_counts(known: Findings, walk: WalkView, next: WalkView, m: Seq<char>)
    requires
        !walk.states.dom().contains(m),
        ordered_map::has_key(known.manifests@, m),
        next.states.dom() == walk.states.dom().insert(m),
    ensures
        unvisited(known, next) < unvisited(known, walk),
{
    let entries = known.manifests@;
    let keys = entries.map_values(
        |e: (Seq<char>, Result<CookConfig, Failure>)| e.0,
    );
    let i = choose|i: int| 0 <= i < entries.len() && entries[i].0 == m;
    assert(keys[i] == m);
    assert(keys.to_set().contains(m));
    vstd::seq_lib::seq_to_set_is_finite(keys);
    let before = keys.to_set().difference(walk.states.dom());
    let after = keys.to_set().difference(next.states.dom());
    assert(after =~= before.remove(m));
}

/// Two complaints about the edge from a package to its dependency: the package's
/// own profile, and the one that the dependency's declaration asks for.
pub open spec fn edge_conflict(
    cfg: CookConfig,
    alias: Seq<char>,
    want: config::DescriptorView,
    child: NodeView,
) -> Option<Seq<char>> {
    abi::either(
        abi::abi_conflict(
            abi::AbiPair {
                parent: cfg.project.name@,
                child: child.name,
                context: "parent-child"@,
            },
            cfg.project.abi@,
            child.abi,
        ),
        abi::abi_conflict(
            abi::AbiPair { parent: alias, child: child.name, context: "dependency-constraint"@ },
            want.abi,
            child.abi,
        ),
    )
}

/// The walk after the package of `manifest`, and that package's number.
pub open spec fn visited(
    options: WalkOptions,
    known: Findings,
    walk: WalkView,
    manifest: Seq<char>,
    source: packages::OriginView,
) -> Result<(WalkView, int), findings::StopView>
    decreases unvisited(known, walk), 0int, 0int,
{
    if walk.states.dom().contains(manifest) {
        match walk.states[manifest] {
            VisitState::Visited => if walk.by_manifest.dom().contains(manifest) {
                Ok((walk, walk.by_manifest[manifest]))
            } else {
                Err(findings::StopView::Failed("missing index for visited dependency"@))
            },
            VisitState::Visiting => Err(
                findings::StopView::Failed(
                    "dependency cycle detected: "@ + cycle(options.windows, walk.stack, manifest),
                ),
            ),
        }
    } else {
        match ordered_map::lookup(known.manifests@, manifest) {
            None => Err(findings::StopView::Need(findings::RequestView::Manifest(manifest))),
            Some(Err(failure)) => Err(findings::StopView::Failed(failure@)),
            Some(Ok(cfg)) => match paths::parent(options.windows, manifest) {
                None => Err(findings::StopView::Failed("manifest path has no parent directory"@)),
                Some(root_dir) => {
                    let index = walk.nodes.len() as int;
                    let inside = entered(walk, manifest, cook_node(cfg, root_dir, source));
                    proof {
                        lemma_entering_counts(known, walk, inside, manifest);
                    }
                    match visited_dependencies(options, known, inside, index, cfg, root_dir, 0) {
                        Err(stop) => Err(stop),
                        Ok(after) => Ok((left(after, manifest, index), index)),
                    }
                },
            },
        }
    }
}

/// The walk after the dependencies of the package `index`, from the one with the
/// number `from` on.
pub open spec fn visited_dependencies(
    options: WalkOptions,
    known: Findings,
    walk: WalkView,
    index: int,
    cfg: CookConfig,
    root_dir: Seq<char>,
    from: nat,
) -> Result<WalkView, findings::StopView>
    decreases unvisited(known, walk), 1int, cfg.dependencies@.len() - from,
{
    if from >= cfg.dependencies@.len() {
        Ok(walk)
    } else {
        let alias = cfg.dependencies@[from as int].0;
        let want = config::described(cfg.dependencies@[from as int].1);
        match located(options, known, walk.turn, root_dir, alias, want) {
            Err(stop) => Err(stop),
            Ok(place) => {
                let here = turned(walk, turn_after(want, walk.turn));
                let step = match place {
                    LocatedView::Cook { manifest, source } => visited(
                        options,
                        known,
                        here,
                        manifest,
                        source,
                    ),
                    LocatedView::External(data) => interned(
                        here,
                        data,
                        cfg.project.cpp_standard@,
                    ),
                };
                match step {
                    Err(stop) => Err(stop),
                    Ok((next, target)) => match edge_conflict(
                        cfg,
                        alias,
                        want,
                        next.nodes[target],
                    ) {
                        Some(message) => Err(findings::StopView::Failed(message)),
                        None => {
                            let after = linked(next, index, target, want.visibility);
                            if unvisited(known, after) <= unvisited(known, walk) {
                                visited_dependencies(
                                    options,
                                    known,
                                    after,
                                    index,
                                    cfg,
                                    root_dir,
                                    from + 1,
                                )
                            } else {
                                // a walk never forgets a package: see `walk_only_grows`
                                Ok(after)
                            }
                        },
                    },
                }
            },
        }
    }
}

// ---------------------------------------------------------------------------
// The result
// ---------------------------------------------------------------------------

/// An optional path in its normalized form.
pub open spec fn normalized_opt(path: Option<Seq<char>>) -> Option<Seq<char>> {
    match path {
        Some(p) => Some(paths::normalized(p)),
        None => None,
    }
}

/// A package's use of another, by name.
pub open spec fn edge_of(nodes: Seq<NodeView>, link: LinkView) -> packages::EdgeView {
    packages::EdgeView { name: nodes[link.target].name, visibility: link.visibility }
}

/// A package of the result.
pub open spec fn package_of(nodes: Seq<NodeView>, node: NodeView) -> packages::PackageView {
    packages::PackageView {
        name: node.name,
        root_dir: paths::normalized(node.root_dir),
        source: node.source,
        dependencies: node.dependencies.map_values(|link: LinkView| edge_of(nodes, link)),
        abi_fingerprint: node.abi_fingerprint,
        external_build_system: node.external_build_system,
        external_manifest_path: normalized_opt(node.external_manifest_path),
        external_manifest_hash: node.external_manifest_hash,
        exports: node.exports,
        build: node.build,
    }
}

/// A direct dependency of the root package.
pub open spec fn dependency_of(nodes: Seq<NodeView>, link: LinkView) -> packages::DependencyView {
    let node = nodes[link.target];
    packages::DependencyView {
        name: node.name,
        root_dir: paths::normalized(node.root_dir),
        visibility: link.visibility,
        abi_fingerprint: node.abi_fingerprint,
        external_build_system: node.external_build_system,
        external_manifest_path: normalized_opt(node.external_manifest_path),
        external_manifest_hash: node.external_manifest_hash,
        exports: node.exports,
        build: node.build,
    }
}

/// The numbers in `order` other than `root`.
pub open spec fn others(order: Seq<int>, root: int) -> Seq<int>
    decreases order.len(),
{
    if order.len() == 0 {
        Seq::empty()
    } else if order.last() == root {
        others(order.drop_last(), root)
    } else {
        others(order.drop_last(), root).push(order.last())
    }
}

/// What a finished walk amounts to.
pub open spec fn summary(walk: WalkView, root: int) -> packages::ResolutionView {
    packages::ResolutionView {
        packages: walk.nodes.map_values(|node: NodeView| package_of(walk.nodes, node)),
        direct_dependencies: walk.nodes[root].dependencies.map_values(
            |link: LinkView| dependency_of(walk.nodes, link),
        ),
        build_order: others(walk.post_order, root).map_values(
            |i: int| walk.nodes[i].name,
        ),
    }
}

/// The resolution of the project with the manifest `manifest`.
pub open spec fn resolved(
    options: WalkOptions,
    known: Findings,
    manifest: Seq<char>,
) -> Result<packages::ResolutionView, findings::StopView> {
    match visited(options, known, start(), manifest, packages::OriginView::Root) {
        Err(stop) => Err(stop),
        Ok((walk, root)) => Ok(summary(walk, root)),
    }
}

// ---------------------------------------------------------------------------
// Laws
// ---------------------------------------------------------------------------

/// What a directory offers never contradicts what is preferred: make never turns
/// into CMake or CMake into make, the file is one that is there, and where a file
/// of the preferred system is there, it is found. Without a preference CMake comes
/// first, and `Makefile` always comes before `makefile`.
pub proof fn preference_is_respected(
    windows: bool,
    found: DirectoryFacts,
    preference: DependencyBuildSystem,
)
    ensures
        preference == DependencyBuildSystem::Make ==> !(detected(
            windows,
            found,
            preference,
        ) matches Some((ExternalBuildSystem::Cmake, _))),
        preference == DependencyBuildSystem::Cmake ==> !(detected(
            windows,
            found,
            preference,
        ) matches Some((ExternalBuildSystem::Make, _))),
        preference == DependencyBuildSystem::Make && found.makefile ==> detected(
            windows,
            found,
            preference,
        ) == Some(
            (ExternalBuildSystem::Make, paths::path_join(windows, found.root@, "Makefile"@)),
        ),
        preference == DependencyBuildSystem::Make && !found.makefile && found.lower_makefile
            ==> detected(windows, found, preference) == Some(
            (ExternalBuildSystem::Make, paths::path_join(windows, found.root@, "makefile"@)),
        ),
        preference == DependencyBuildSystem::Make && !found.makefile && !found.lower_makefile
            ==> detected(windows, found, preference) is None,
        preference == DependencyBuildSystem::Cmake && !found.cmake_lists ==> detected(
            windows,
            found,
            preference,
        ) is None,
        preference != DependencyBuildSystem::Make && found.cmake_lists ==> detected(
            windows,
            found,
            preference,
        ) == Some(
            (
                ExternalBuildSystem::Cmake,
                paths::path_join(windows, found.root@, "CMakeLists.txt"@),
            ),
        ),
        preference == DependencyBuildSystem::Auto && !found.cmake_lists ==> detected(
            windows,
            found,
            preference,
        ) == detected(windows, found, DependencyBuildSystem::Make),
{
}

/// An external dependency is built by a system that its declaration allows, from a
/// file of that system in its own directory, and keeps the name and the build
/// settings of its declaration; the hash is that of the file's bytes.
pub proof fn located_package_is_the_declared_one(
    windows: bool,
    known: Findings,
    turn: int,
    found: DirectoryFacts,
    name: Seq<char>,
    want: config::DescriptorView,
    git: Option<GitView>,
)
    ensures
        found.cook_manifest matches Some(manifest) ==> (located_in(
            windows,
            known,
            turn,
            Ok(found),
            name,
            want,
            git,
        ) matches Ok(LocatedView::Cook { manifest: m, .. }) && m == manifest@),
        located_in(windows, known, turn, Ok(found), name, want, git) matches Ok(
            LocatedView::External(data),
        ) ==> {
            &&& found.cook_manifest is None
            &&& data.root_dir == found.root@
            &&& data.name == name
            &&& data.build == want.build
            &&& want.build_system == DependencyBuildSystem::Make ==> data.build_system
                == ExternalBuildSystem::Make
            &&& want.build_system == DependencyBuildSystem::Cmake ==> data.build_system
                == ExternalBuildSystem::Cmake
            &&& data.build_system == ExternalBuildSystem::Cmake ==> found.cmake_lists
                && data.manifest_path == paths::path_join(windows, found.root@, "CMakeLists.txt"@)
            &&& data.build_system == ExternalBuildSystem::Make ==> {
                ||| found.makefile && data.manifest_path == paths::path_join(
                    windows,
                    found.root@,
                    "Makefile"@,
                )
                ||| !found.makefile && found.lower_makefile && data.manifest_path
                    == paths::path_join(windows, found.root@, "makefile"@)
            }
            &&& findings::file_seen(known, turn, data.manifest_path) matches Some(Ok(bytes))
                && data.manifest_hash == digest::sha256_hex_of(bytes@)
            &&& match git {
                Some(g) => data.source == (packages::OriginView::Git {
                    url: g.url,
                    requested_rev: g.requested_rev,
                    resolved_rev: g.resolved_rev,
                }),
                None => data.source == (packages::OriginView::Path {
                    manifest: paths::normalized(found.root@),
                }),
            }
        },
{
}

/// What a package exports is seen from its own directory: every directory lies
/// there unless it is absolute, and a library is a path only if it looks like one.
pub proof fn exports_are_seen_from_the_package(
    windows: bool,
    root: Seq<char>,
    export: config::ExportView,
)
    ensures
        ({
            let full = full_exports(windows, root, export);
            &&& full.include_dirs.len() == export.include_dirs.len()
            &&& full.lib_dirs.len() == export.lib_dirs.len()
            &&& full.libs.len() == export.libs.len()
            &&& forall|i: int|
                0 <= i < export.include_dirs.len() ==> #[trigger] full.include_dirs[i]
                    == paths::normalized(paths::path_join(windows, root, export.include_dirs[i]))
            &&& forall|i: int|
                0 <= i < export.lib_dirs.len() ==> #[trigger] full.lib_dirs[i]
                    == paths::normalized(paths::path_join(windows, root, export.lib_dirs[i]))
            &&& forall|i: int|
                0 <= i < export.libs.len() && !export.libs[i].contains('/')
                    && !export.libs[i].contains('\\') && !("."@.is_prefix_of(export.libs[i]))
                    && !paths::is_absolute(windows, export.libs[i]) ==> #[trigger] full.libs[i]
                    == export.libs[i]
            &&& forall|i: int|
                0 <= i < export.libs.len() && (export.libs[i].contains('/')
                    || export.libs[i].contains('\\') || "."@.is_prefix_of(export.libs[i]))
                    ==> #[trigger] full.libs[i] == paths::normalized(
                    paths::path_join(windows, root, export.libs[i]),
                )
        }),
{
}

/// A repository is asked for only with a URL and a revision, exactly as declared
/// and in the directory `.cook/deps` of the workspace that bears its name; a path is
/// looked at from the directory of the package that names it.
pub proof fn dependencies_are_looked_for_as_declared(
    options: WalkOptions,
    known: Findings,
    turn: int,
    base_dir: Seq<char>,
    name: Seq<char>,
    want: config::DescriptorView,
)
    ensures
        located(options, known, turn, base_dir, name, want) matches Err(
            findings::StopView::Need(findings::RequestView::Checkout { want: asked, turn: at }),
        ) ==> {
            &&& at == turn
            &&& want.source matches config::SourceView::Git { url, rev, branch, tag }
            &&& text::trimmed(url).len() > 0
            &&& asked.url == url
            &&& rev == Some(asked.rev)
            &&& asked.branch == branch
            &&& asked.tag == tag
            &&& asked.offline == options.offline
            &&& asked.windows == options.windows
            &&& asked.dir == paths::path_join(
                options.windows,
                paths::path_join(
                    options.windows,
                    paths::path_join(options.windows, options.workspace_root, ".cook"@),
                    "deps"@,
                ),
                name,
            )
        },
        want.source matches config::SourceView::Git { url, rev, .. } && (text::trimmed(url).len()
            == 0 || rev is None) ==> (located(options, known, turn, base_dir, name, want)
            matches Err(findings::StopView::Failed(_))),
        located(options, known, turn, base_dir, name, want) matches Err(
            findings::StopView::Need(findings::RequestView::Directory { path, turn: at }),
        ) ==> {
            &&& at == turn
            &&& want.source matches config::SourceView::Path(declared)
            &&& path == paths::path_join(options.windows, base_dir, declared)
        },
{
}

/// The package of a manifest bears its name, its profile and the fingerprint of that
/// profile and its C++ standard, stands in the directory of the manifest, and needs no
/// other build system; it begins without dependencies.
pub proof fn manifests_make_packages(
    cfg: CookConfig,
    root_dir: Seq<char>,
    source: packages::OriginView,
)
    ensures
        ({
            let node = cook_node(cfg, root_dir, source);
            &&& node.name == cfg.project.name@
            &&& node.root_dir == root_dir
            &&& node.source == source
            &&& node.abi == cfg.project.abi@
            &&& node.abi_fingerprint == abi::abi_fingerprint(
                cfg.project.cpp_standard@,
                cfg.project.abi@,
            )
            &&& node.external_build_system is None
            &&& node.external_manifest_path is None
            &&& node.external_manifest_hash is None
            &&& node.exports.include_dirs.len() == 0 && node.exports.lib_dirs.len() == 0
                && node.exports.libs.len() == 0
            &&& node.build.exclude.len() == 0 && node.build.defines.len() == 0
            &&& node.dependencies.len() == 0
        }),
{
}

/// The package of an external dependency keeps all that was found of it, and fixes
/// nothing of its profile.
pub proof fn external_dependencies_make_packages(data: ExternalView, cpp_standard: Seq<char>)
    ensures
        ({
            let node = external_node(data, cpp_standard);
            &&& node.name == data.name
            &&& node.root_dir == data.root_dir
            &&& node.source == data.source
            &&& node.abi.compiler is None && node.abi.compiler_version is None
                && node.abi.c_runtime is None && node.abi.cxx_runtime is None
                && node.abi.exceptions is None && node.abi.rtti is None && node.abi.pic is None
                && node.abi.visibility is None && node.abi.arch is None
            &&& node.abi_fingerprint == abi::abi_fingerprint(cpp_standard, node.abi)
            &&& node.external_build_system == Some(data.build_system)
            &&& node.external_manifest_path == Some(data.manifest_path)
            &&& node.external_manifest_hash == Some(data.manifest_hash)
            &&& node.exports == data.exports
            &&& node.build == data.build
            &&& node.dependencies.len() == 0
        }),
{
}

/// A package is noted as used once, with the visibility that came first; nothing else
/// changes.
pub proof fn uses_are_noted_once(
    walk: WalkView,
    index: int,
    target: int,
    visibility: DependencyVisibility,
)
    requires
        0 <= index < walk.nodes.len(),
    ensures
        ({
            let after = linked(walk, index, target, visibility);
            let old_uses = walk.nodes[index].dependencies;
            let known = exists|i: int|
                0 <= i < old_uses.len() && (#[trigger] old_uses[i]).target == target;
            &&& known ==> after == walk
            &&& !known ==> after.nodes[index].dependencies == old_uses.push(
                LinkView { target, visibility },
            )
            &&& after.nodes.len() == walk.nodes.len()
            &&& after.nodes[index].name == walk.nodes[index].name
            &&& after.nodes[index].root_dir == walk.nodes[index].root_dir
            &&& after.nodes[index].abi == walk.nodes[index].abi
            &&& forall|i: int|
                0 <= i < walk.nodes.len() && i != index ==> #[trigger] after.nodes[i]
                    == walk.nodes[i]
            &&& after.post_order == walk.post_order
        }),
{
    let old_uses = walk.nodes[index].dependencies;
    if links_to(walk.nodes[index], target) {
        let i = choose|i: int| 0 <= i < old_uses.len() && old_uses[i].target == target;
        assert(old_uses[i].target == target);
    }
}

/// An external dependency in a directory that is known is the package that is known,
/// if it says the same of exports and build, and is refused otherwise; in a new
/// directory it becomes the next package and is built in its turn.
pub proof fn external_directories_are_shared(
    walk: WalkView,
    data: ExternalView,
    cpp_standard: Seq<char>,
)
    ensures
        walk.by_external.dom().contains(data.root_dir) ==> {
            let node = walk.nodes[walk.by_external[data.root_dir]];
            &&& node.exports == data.exports && node.build == data.build ==> interned(
                walk,
                data,
                cpp_standard,
            ) == Ok::<(WalkView, int), findings::StopView>(
                (walk, walk.by_external[data.root_dir]),
            )
            &&& node.exports != data.exports || node.build != data.build ==> (interned(
                walk,
                data,
                cpp_standard,
            ) matches Err(findings::StopView::Failed(_)))
        },
        !walk.by_external.dom().contains(data.root_dir) ==> (interned(walk, data, cpp_standard)
            matches Ok((after, index)) && index == walk.nodes.len() && after.nodes
            == walk.nodes.push(external_node(data, cpp_standard)) && after.post_order
            == walk.post_order.push(index) && after.by_external == walk.by_external.insert(
            data.root_dir,
            index,
        )),
{
}

/// The packages of a result are those of the walk, with `/` as their only separator,
/// and name the packages that they use together with the visibility.
pub proof fn results_say_what_the_walk_found(walk: WalkView, root: int, i: int, e: int)
    requires
        0 <= i < walk.nodes.len(),
        0 <= root < walk.nodes.len(),
    ensures
        ({
            let node = walk.nodes[i];
            let package = summary(walk, root).packages[i];
            &&& summary(walk, root).packages.len() == walk.nodes.len()
            &&& package.name == node.name
            &&& package.root_dir == paths::normalized(node.root_dir)
            &&& package.source == node.source
            &&& package.abi_fingerprint == node.abi_fingerprint
            &&& package.external_build_system == node.external_build_system
            &&& node.external_manifest_path matches Some(path) ==> package.external_manifest_path
                == Some(paths::normalized(path))
            &&& node.external_manifest_path is None ==> package.external_manifest_path is None
            &&& package.external_manifest_hash == node.external_manifest_hash
            &&& package.exports == node.exports
            &&& package.build == node.build
            &&& package.dependencies.len() == node.dependencies.len()
            &&& 0 <= e < node.dependencies.len() ==> package.dependencies[e].name
                == walk.nodes[node.dependencies[e].target].name
                && package.dependencies[e].visibility == node.dependencies[e].visibility
        }),
        ({
            let uses = walk.nodes[root].dependencies;
            let direct = summary(walk, root).direct_dependencies;
            &&& direct.len() == uses.len()
            &&& 0 <= e < uses.len() ==> {
                let node = walk.nodes[uses[e].target];
                let dep = direct[e];
                &&& dep.name == node.name
                &&& dep.root_dir == paths::normalized(node.root_dir)
                &&& dep.visibility == uses[e].visibility
                &&& dep.abi_fingerprint == node.abi_fingerprint
                &&& dep.external_build_system == node.external_build_system
                &&& node.external_manifest_path matches Some(path) ==> dep.external_manifest_path
                    == Some(paths::normalized(path))
                &&& node.external_manifest_path is None ==> dep.external_manifest_path is None
                &&& dep.external_manifest_hash == node.external_manifest_hash
                &&& dep.exports == node.exports
                &&& dep.build == node.build
            }
        }),
{
}

/// A cycle is shown by the packages on the way back, each by the name of its directory,
/// with arrows between them.
pub proof fn cycles_are_shown_by_directories(
    windows: bool,
    stack: Seq<Seq<char>>,
    manifest: Seq<char>,
)
    requires
        stack.len() > 0,
        stack.last() == manifest,
        forall|i: int| 0 <= i < stack.len() - 1 ==> #[trigger] stack[i] != manifest,
    ensures
        cycle(windows, stack, manifest) == paths::manifest_label(windows, manifest) + " -> "@
            + paths::manifest_label(windows, manifest),
{
    lemma_place_last(stack, manifest);
    let n = stack.len() - 1;
    let labels = stack.skip(n).push(manifest).map_values(
        |m: Seq<char>| paths::manifest_label(windows, m),
    );
    assert(labels.len() == 2);
    assert(labels[0] == paths::manifest_label(windows, manifest));
    assert(labels[1] == paths::manifest_label(windows, manifest));
    assert(labels.drop_last().len() == 1 && labels.drop_last()[0] == labels[0]);
    reveal_with_fuel(text::joined, 2);
}

proof fn lemma_place_last(list: Seq<Seq<char>>, item: Seq<char>)
    requires
        list.len() > 0,
        list.last() == item,
        forall|i: int| 0 <= i < list.len() - 1 ==> #[trigger] list[i] != item,
    ensures
        place(list, item) == list.len() - 1,
    decreases list.len(),
{
    if list.len() > 1 {
        assert(list[0] != item);
        let rest = list.drop_first();
        assert forall|i: int| 0 <= i < rest.len() - 1 implies #[trigger] rest[i] != item by {
            assert(rest[i] == list[i + 1]);
        }
        lemma_place_last(rest, item);
    }
}

/// A walk that comes back to a package that it has not left fails with the cycle, and
/// one that comes back to a package that it has left goes on with that package.
pub proof fn cycles_are_refused(
    options: WalkOptions,
    known: Findings,
    walk: WalkView,
    manifest: Seq<char>,
    source: packages::OriginView,
)
    requires
        walk.states.dom().contains(manifest),
    ensures
        walk.states[manifest] == VisitState::Visiting ==> visited(
            options,
            known,
            walk,
            manifest,
            source,
        ) == Err::<(WalkView, int), findings::StopView>(
            findings::StopView::Failed(
                "dependency cycle detected: "@ + cycle(options.windows, walk.stack, manifest),
            ),
        ),
        walk.states[manifest] == VisitState::Visited && walk.by_manifest.dom().contains(manifest)
            ==> visited(options, known, walk, manifest, source) == Ok::<
            (WalkView, int),
            findings::StopView,
        >((walk, walk.by_manifest[manifest])),
{
}

/// A dependency that offers nothing to build, and one whose declaration names no
/// repository or no revision, is complained of by its name.
pub proof fn complaints_name_the_dependency(
    options: WalkOptions,
    known: Findings,
    turn: int,
    base_dir: Seq<char>,
    name: Seq<char>,
    want: config::DescriptorView,
    found: DirectoryFacts,
)
    ensures
        found.cook_manifest is None && detected(options.windows, found, want.build_system) is None
            ==> located_in(options.windows, known, turn, Ok(found), name, want, None) == Err::<
            LocatedView,
            findings::StopView,
        >(
            findings::StopView::Failed(
                "dependency '"@ + name
                    + "' has no cook.toml and no supported external build file (CMakeLists.txt or Makefile) in "@
                    + found.root@,
            ),
        ),
        want.source matches config::SourceView::Git { url, rev, .. } ==> {
            &&& text::trimmed(url).len() == 0 ==> located(
                options,
                known,
                turn,
                base_dir,
                name,
                want,
            ) == Err::<LocatedView, findings::StopView>(
                findings::StopView::Failed(
                    "dependency '"@ + name + "' defines git source with empty URL"@,
                ),
            )
            &&& text::trimmed(url).len() > 0 && rev is None ==> located(
                options,
                known,
                turn,
                base_dir,
                name,
                want,
            ) == Err::<LocatedView, findings::StopView>(
                findings::StopView::Failed(
                    "dependency '"@ + name
                        + "' uses git source without 'rev'. Pin a commit SHA for reproducible builds"@,
                ),
            )
        },
{
}

/// A dependency is what its directory shows: that of its path, seen from the package
/// that names it, or that of its checkout, which is looked at after the checkout.
pub proof fn dependencies_are_what_their_directories_show(
    options: WalkOptions,
    known: Findings,
    turn: int,
    base_dir: Seq<char>,
    name: Seq<char>,
    want: config::DescriptorView,
)
    ensures
        want.source matches config::SourceView::Path(path) ==> (findings::directory_seen(
            known,
            turn,
            paths::path_join(options.windows, base_dir, path),
        ) matches Some(seen) ==> located(options, known, turn, base_dir, name, want) == located_in(
            options.windows,
            known,
            turn,
            seen,
            name,
            want,
            None,
        )),
        located(options, known, turn, base_dir, name, want) is Ok ==> (want.source
            matches config::SourceView::Git { url, rev, .. } ==> 0 <= turn < known.checkouts@.len()
            && (known.checkouts@[turn].1 matches Ok(done) && located(
            options,
            known,
            turn,
            base_dir,
            name,
            want,
        ) == located_in(
            options.windows,
            known,
            turn + 1,
            done.directory,
            name,
            want,
            Some(GitView { url, requested_rev: rev->0, resolved_rev: done.rev@ }),
        ))),
        want.source is Path ==> turn_after(want, turn) == turn,
        want.source is Git ==> turn_after(want, turn) == turn + 1,
{
}

/// A package may use another only if both its own profile and the one that its
/// declaration asks for fit that of the other; which of them does not is told.
pub proof fn uses_are_checked_twice(
    cfg: CookConfig,
    alias: Seq<char>,
    want: config::DescriptorView,
    child: NodeView,
)
    ensures
        edge_conflict(cfg, alias, want, child) is None <==> abi::abi_fits(
            cfg.project.abi@,
            child.abi,
        ) && abi::abi_fits(want.abi, child.abi),
        !abi::abi_fits(cfg.project.abi@, child.abi) ==> edge_conflict(cfg, alias, want, child)
            == abi::abi_conflict(
            abi::AbiPair {
                parent: cfg.project.name@,
                child: child.name,
                context: "parent-child"@,
            },
            cfg.project.abi@,
            child.abi,
        ),
        abi::abi_fits(cfg.project.abi@, child.abi) && !abi::abi_fits(want.abi, child.abi)
            ==> edge_conflict(cfg, alias, want, child) == abi::abi_conflict(
            abi::AbiPair { parent: alias, child: child.name, context: "dependency-constraint"@ },
            want.abi,
            child.abi,
        ),
{
    let own = abi::AbiPair {
        parent: cfg.project.name@,
        child: child.name,
        context: "parent-child"@,
    };
    let asked = abi::AbiPair {
        parent: alias,
        child: child.name,
        context: "dependency-constraint"@,
    };
    abi::conflict_iff_misfit(own, cfg.project.abi@, child.abi);
    abi::conflict_iff_misfit(asked, want.abi, child.abi);
}

}
