//! Dependencies that bring their own build system.
use vstd::prelude::*;
use vstd::string::*;

use crate::backends;
use crate::backends::{BuildProfile, CommandSpec};
use crate::config;
use crate::config::BuildCompiler;
use crate::failure::Failure;
use crate::ordered_map;
use crate::ordered_map::OrderedMap;
use crate::packages;
use crate::packages::{ExternalBuildSystem, ResolvedDependency};
use crate::paths;
use crate::pkg_config;
use crate::pkg_config::PkgConfigLinkMetadata;
use crate::programs;
use crate::programs::{CommandProgress, ProgramOutcome};
use crate::text;

verus! {

broadcast use vstd::string::group_string_axioms;

// ---------------------------------------------------------------------------
// Model: how a dependency is built
// ---------------------------------------------------------------------------

/// The user wants the examples of a dependency left out.
pub open spec fn excludes_examples(exclude: Seq<Seq<char>>) -> bool {
    exists|i: int|
        0 <= i < exclude.len() && text::lowered(text::trimmed(#[trigger] exclude[i]))
            == "examples"@
}

/// The CMake definitions of a dependency, as a map.
pub open spec fn define_map(dep: packages::DependencyView) -> Map<Seq<char>, Seq<char>> {
    let given = ordered_map::map_of(dep.build.defines);
    if excludes_examples(dep.build.exclude) && !given.dom().contains("BUILD_EXAMPLES"@) {
        given.insert("BUILD_EXAMPLES"@, "OFF"@)
    } else {
        given
    }
}

/// The arguments by which CMake is told the definitions of a dependency.
pub open spec fn define_words(dep: packages::DependencyView) -> Seq<Seq<char>> {
    ordered_map::entries_of(define_map(dep)).map_values(
        |e: (Seq<char>, Seq<char>)| "-D"@ + e.0 + "="@ + e.1,
    )
}

/// Where a dependency is built and installed.
pub open spec fn external_base(
    name: Seq<char>,
    profile: BuildProfile,
    compiler: BuildCompiler,
    windows: bool,
) -> Seq<char> {
    let dir = paths::path_join(windows, "target"@, backends::profile_name(profile));
    let deps = paths::path_join(windows, dir, "deps"@);
    paths::path_join(
        windows,
        paths::path_join(windows, deps, name),
        backends::compiler_name(compiler),
    )
}

/// How CMake is made to build and install a dependency.
pub open spec fn cmake_commands(
    dep: packages::DependencyView,
    profile: BuildProfile,
    compiler: BuildCompiler,
    windows: bool,
) -> Seq<backends::CommandView> {
    let base = external_base(dep.name, profile, compiler, windows);
    let build_dir = paths::normalized(paths::path_join(windows, base, "build"@));
    let install_dir = paths::normalized(paths::path_join(windows, base, "install"@));
    let build_type = backends::cmake_profile_name(profile);
    seq![
        backends::CommandView {
            program: "cmake"@,
            args: seq![
                "-S"@,
                paths::normalized(dep.root_dir),
                "-B"@,
                build_dir,
                "-DCMAKE_BUILD_TYPE="@ + build_type,
                "-DCMAKE_INSTALL_PREFIX="@ + install_dir,
            ] + define_words(dep) + backends::toolchain_words(compiler, windows)
                + dep.build.configure_args,
        },
        backends::CommandView {
            program: "cmake"@,
            args: seq!["--build"@, build_dir, "--config"@, build_type] + dep.build.build_args,
        },
        backends::CommandView {
            program: "cmake"@,
            args: seq!["--install"@, build_dir, "--config"@, build_type] + dep.build.install_args,
        },
    ]
}

/// The flags by which make is told the profile.
pub open spec fn make_flags(profile: BuildProfile) -> Seq<char> {
    match profile {
        BuildProfile::Release => "-O3 -DNDEBUG"@,
        BuildProfile::Debug => "-O0 -g"@,
    }
}

/// How make is made to build a dependency.
pub open spec fn make_command(dep: packages::DependencyView) -> backends::CommandView {
    backends::CommandView { program: "make"@, args: seq!["-C"@, dep.root_dir] }
}

/// What has to be done to build an external dependency.
#[derive(Debug)]
pub struct ExternalBuild {
    /// What the user is told.
    pub announcement: String,
    /// The directories that have to be there.
    pub directories: Vec<String>,
    /// The commands to run.
    pub commands: Vec<CommandSpec>,
    /// What to set `CFLAGS` and `CXXFLAGS` to.
    pub flags: Option<String>,
}

/// The model of an [`ExternalBuild`].
#[verifier::ext_equal]
pub struct ExternalBuildView {
    pub announcement: Seq<char>,
    pub directories: Seq<Seq<char>>,
    pub commands: Seq<backends::CommandView>,
    pub flags: Option<Seq<char>>,
}

impl View for ExternalBuild {
    type V = ExternalBuildView;

    open spec fn view(&self) -> ExternalBuildView {
        ExternalBuildView {
            announcement: self.announcement@,
            directories: text::texts(self.directories@),
            commands: backends::command_views(self.commands@),
            flags: text::opt_text(self.flags),
        }
    }
}

/// What has to be done to build a dependency, if it is an external one.
pub open spec fn building(
    dep: packages::DependencyView,
    profile: BuildProfile,
    compiler: BuildCompiler,
    windows: bool,
) -> Option<ExternalBuildView> {
    match dep.external_build_system {
        None => None,
        Some(ExternalBuildSystem::Cmake) => Some(
            ExternalBuildView {
                announcement: "preparing external dependency '"@ + dep.name + "' using "@
                    + "cmake"@,
                directories: seq![
                    paths::path_join(windows, external_base(dep.name, profile, compiler, windows), "build"@),
                    paths::path_join(windows, external_base(dep.name, profile, compiler, windows), "install"@),
                ],
                commands: cmake_commands(dep, profile, compiler, windows),
                flags: None,
            },
        ),
        Some(ExternalBuildSystem::Make) => Some(
            ExternalBuildView {
                announcement: "preparing external dependency '"@ + dep.name + "' using "@
                    + "make"@,
                directories: Seq::empty(),
                commands: seq![make_command(dep)],
                flags: Some(make_flags(profile)),
            },
        ),
    }
}

/// The complaint about a dependency that make did not build.
pub open spec fn make_complaint(
    dep: packages::DependencyView,
    outcome: ProgramOutcome,
) -> Seq<char> {
    match outcome {
        ProgramOutcome::NotStarted(_) => "failed to run make for dependency "@ + dep.name,
        ProgramOutcome::Ended { .. } => "make build failed for dependency '"@ + dep.name + "' at "@
            + dep.root_dir,
    }
}

/// What to do next about the commands that build a dependency.
pub open spec fn building_progress(
    dep: packages::DependencyView,
    commands: Seq<backends::CommandView>,
    ran: Seq<ProgramOutcome>,
) -> programs::ProgressView {
    let plain = programs::progress(commands, ran);
    if plain is Failed && dep.external_build_system == Some(ExternalBuildSystem::Make) {
        programs::ProgressView::Failed(make_complaint(dep, ran[programs::successes(ran)]))
    } else {
        plain
    }
}

/// Where a dependency stands after it has been built.
pub open spec fn built_root(
    dep: packages::DependencyView,
    profile: BuildProfile,
    compiler: BuildCompiler,
    windows: bool,
) -> Seq<char> {
    match dep.external_build_system {
        Some(ExternalBuildSystem::Cmake) => paths::normalized(
            paths::path_join(windows, external_base(dep.name, profile, compiler, windows), "install"@),
        ),
        _ => paths::normalized(dep.root_dir),
    }
}

// ---------------------------------------------------------------------------
// Model: what a dependency exports
// ---------------------------------------------------------------------------

/// `list` with the items of `more` that are new.
pub open spec fn with_all(list: Seq<Seq<char>>, more: Seq<Seq<char>>) -> Seq<Seq<char>>
    decreases more.len(),
{
    if more.len() == 0 {
        list
    } else {
        text::with_unique(with_all(list, more.drop_last()), more.last())
    }
}

/// Where the headers of a dependency are looked for that does not say.
pub open spec fn usual_headers(system: ExternalBuildSystem, root: Seq<char>) -> Seq<Seq<char>> {
    match system {
        ExternalBuildSystem::Cmake => seq![root + "/include"@],
        ExternalBuildSystem::Make => seq![root + "/include"@, root],
    }
}

/// Where the libraries of a dependency are looked for that does not say.
pub open spec fn usual_library_dirs(
    system: ExternalBuildSystem,
    root: Seq<char>,
    profile: BuildProfile,
) -> Seq<Seq<char>> {
    match system {
        ExternalBuildSystem::Cmake => seq![root + "/lib"@, root + "/lib64"@],
        ExternalBuildSystem::Make => seq![
            root + "/lib"@,
            root + "/target/"@ + backends::profile_name(profile),
            root,
        ],
    }
}

/// The system libraries that a dependency needs without saying so.
pub open spec fn silent_libs(name: Seq<char>, windows: bool) -> Seq<Seq<char>> {
    if windows && text::lowered(name) == text::lowered("raylib"@) {
        seq!["winmm"@, "gdi32"@, "opengl32"@]
    } else {
        Seq::empty()
    }
}

/// What pkg-config adds to the library directories.
pub open spec fn inferred_dirs(inferred: Option<pkg_config::LinkingView>) -> Seq<Seq<char>> {
    match inferred {
        Some(known) => known.lib_dirs,
        None => Seq::empty(),
    }
}

/// What pkg-config adds to the libraries.
pub open spec fn inferred_libs(inferred: Option<pkg_config::LinkingView>) -> Seq<Seq<char>> {
    match inferred {
        Some(known) => known.libs,
        None => Seq::empty(),
    }
}

/// What an external dependency exports once it is built, with what it does not
/// say filled in.
pub open spec fn completed_exports(
    dep: packages::DependencyView,
    system: ExternalBuildSystem,
    profile: BuildProfile,
    inferred: Option<pkg_config::LinkingView>,
    windows: bool,
) -> config::ExportView {
    let given = dep.exports;
    config::ExportView {
        include_dirs: if given.include_dirs.len() == 0 {
            with_all(given.include_dirs, usual_headers(system, dep.root_dir))
        } else {
            given.include_dirs
        },
        lib_dirs: with_all(
            if given.lib_dirs.len() == 0 {
                with_all(given.lib_dirs, usual_library_dirs(system, dep.root_dir, profile))
            } else {
                given.lib_dirs
            },
            inferred_dirs(inferred),
        ),
        libs: with_all(
            with_all(
                if given.libs.len() == 0 {
                    seq![dep.name]
                } else {
                    given.libs
                },
                inferred_libs(inferred),
            ),
            silent_libs(dep.name, windows),
        ),
    }
}

/// A dependency once it is built.
pub open spec fn prepared(
    dep: packages::DependencyView,
    profile: BuildProfile,
    compiler: BuildCompiler,
    inferred: Option<pkg_config::LinkingView>,
    windows: bool,
) -> packages::DependencyView {
    match dep.external_build_system {
        None => dep,
        Some(system) => {
            let moved = packages::DependencyView {
                root_dir: built_root(dep, profile, compiler, windows),
                ..dep
            };
            packages::DependencyView {
                exports: completed_exports(moved, system, profile, inferred, windows),
                ..moved
            }
        },
    }
}

/// Where pkg-config files of a dependency are.
pub open spec fn pkg_config_dir(windows: bool, root: Seq<char>) -> Seq<char> {
    paths::path_join(windows, paths::path_join(windows, root, "lib"@), "pkgconfig"@)
}

/// The pkg-config file that bears the name of the dependency.
pub open spec fn preferred_pc(windows: bool, root: Seq<char>, name: Seq<char>) -> Seq<char> {
    paths::path_join(windows, pkg_config_dir(windows, root), name + ".pc"@)
}

/// A pkg-config file, by its extension.
pub open spec fn is_pc(windows: bool, path: Seq<char>) -> bool {
    paths::extension(windows, path) is Some && text::lowered(
        paths::extension(windows, path)->0,
    ) == text::lowered("pc"@)
}

/// The first pkg-config file in `listing`.
pub open spec fn first_pc(windows: bool, listing: Seq<Seq<char>>) -> Option<Seq<char>>
    decreases listing.len(),
{
    if listing.len() == 0 {
        None
    } else if is_pc(windows, listing[0]) {
        Some(listing[0])
    } else {
        first_pc(windows, listing.drop_first())
    }
}

/// What is seen of the pkg-config files of a dependency.
#[derive(Debug)]
pub struct PkgConfigFacts {
    /// There is a directory of them.
    pub dir_present: bool,
    /// One of them bears the name of the dependency.
    pub preferred_present: bool,
    /// What is in the directory.
    pub listing: Vec<String>,
}

/// The pkg-config file that is read: the one with the name of the dependency, or
/// the first one that there is.
pub open spec fn pc_file(
    windows: bool,
    root: Seq<char>,
    name: Seq<char>,
    facts: PkgConfigFacts,
) -> Option<Seq<char>> {
    if !facts.dir_present {
        None
    } else if facts.preferred_present {
        Some(preferred_pc(windows, root, name))
    } else {
        first_pc(windows, text::texts(facts.listing@))
    }
}

/// What is known so far of an external dependency that is being built.
#[derive(Debug)]
pub struct ExternalReplies {
    /// The user has been told.
    pub announced: bool,
    /// Whether the directories could be created.
    pub directories: Option<Result<(), Failure>>,
    /// What came of the commands that have been run.
    pub ran: Vec<ProgramOutcome>,
    /// What is seen of its pkg-config files.
    pub pkg_config: Option<PkgConfigFacts>,
    /// What the pkg-config file holds, if it can be read.
    pub pc_content: Option<Option<String>>,
}

/// What to do next about an external dependency.
#[derive(Debug)]
pub enum ExternalStep {
    /// Tell the user this.
    Announce(String),
    /// Create these directories.
    CreateDirectories(Vec<String>),
    /// Run a command, with `CFLAGS` and `CXXFLAGS` set to `flags`.
    Run { command: CommandSpec, flags: Option<String> },
    /// See what there is of pkg-config files.
    LookForPkgConfig { dir: String, preferred: String },
    /// Read this pkg-config file.
    ReadPkgConfig(String),
    /// The dependency cannot be built.
    Failed(Failure),
}

/// The model of an [`ExternalStep`].
#[verifier::ext_equal]
pub enum ExternalStepView {
    Announce(Seq<char>),
    CreateDirectories(Seq<Seq<char>>),
    Run { command: backends::CommandView, flags: Option<Seq<char>> },
    LookForPkgConfig { dir: Seq<char>, preferred: Seq<char> },
    ReadPkgConfig(Seq<char>),
    Failed(Seq<char>),
}

impl View for ExternalStep {
    type V = ExternalStepView;

    open spec fn view(&self) -> ExternalStepView {
        match self {
            ExternalStep::Announce(message) => ExternalStepView::Announce(message@),
            ExternalStep::CreateDirectories(list) => ExternalStepView::CreateDirectories(
                text::texts(list@),
            ),
            ExternalStep::Run { command, flags } => ExternalStepView::Run {
                command: command@,
                flags: text::opt_text(*flags),
            },
            ExternalStep::LookForPkgConfig { dir, preferred } => ExternalStepView::LookForPkgConfig {
                dir: dir@,
                preferred: preferred@,
            },
            ExternalStep::ReadPkgConfig(path) => ExternalStepView::ReadPkgConfig(path@),
            ExternalStep::Failed(failure) => ExternalStepView::Failed(failure@),
        }
    }
}

/// What pkg-config tells of a dependency that stands in `root`, or how to find out.
///
/// A file that is missing or unreadable tells nothing, and neither does one whose
/// variables refer to each other without end.
pub open spec fn inferring(
    windows: bool,
    root: Seq<char>,
    name: Seq<char>,
    replies: ExternalReplies,
) -> Result<Option<pkg_config::LinkingView>, ExternalStepView> {
    match replies.pkg_config {
        None => Err(
            ExternalStepView::LookForPkgConfig {
                dir: pkg_config_dir(windows, root),
                preferred: preferred_pc(windows, root, name),
            },
        ),
        Some(facts) => match pc_file(windows, root, name, facts) {
            None => Ok(None),
            Some(path) => match replies.pc_content {
                None => Err(ExternalStepView::ReadPkgConfig(path)),
                Some(None) => Ok(None),
                Some(Some(content)) => Ok(pkg_config::link_metadata(content@)),
            },
        },
    }
}

/// A dependency ready for use, or what to do next for it. Where nothing is known
/// of it yet, there are no `replies`.
pub open spec fn external_step(
    dep: packages::DependencyView,
    profile: BuildProfile,
    compiler: BuildCompiler,
    windows: bool,
    replies: Option<ExternalReplies>,
) -> Result<packages::DependencyView, ExternalStepView> {
    match building(dep, profile, compiler, windows) {
        None => Ok(dep),
        Some(work) => if replies is None || !replies->0.announced {
            Err(ExternalStepView::Announce(work.announcement))
        } else if work.directories.len() > 0 && replies->0.directories is None {
            Err(ExternalStepView::CreateDirectories(work.directories))
        } else if work.directories.len() > 0 && replies->0.directories->0 is Err {
            Err(ExternalStepView::Failed(replies->0.directories->0->Err_0@))
        } else {
            match building_progress(dep, work.commands, replies->0.ran@) {
                programs::ProgressView::Run(i) => Err(
                    ExternalStepView::Run { command: work.commands[i], flags: work.flags },
                ),
                programs::ProgressView::Failed(message) => Err(ExternalStepView::Failed(message)),
                programs::ProgressView::Done => match inferring(
                    windows,
                    built_root(dep, profile, compiler, windows),
                    dep.name,
                    replies->0,
                ) {
                    Err(step) => Err(step),
                    Ok(inferred) => Ok(prepared(dep, profile, compiler, inferred, windows)),
                },
            }
        },
    }
}

/// What is known of the dependency with the number `i`.
pub open spec fn replies_for(replies: Seq<ExternalReplies>, i: int) -> Option<ExternalReplies> {
    if 0 <= i < replies.len() {
        Some(replies[i])
    } else {
        None
    }
}

/// The dependencies ready for use, or what to do next, and for which of them.
pub open spec fn externals_step(
    deps: Seq<packages::DependencyView>,
    profile: BuildProfile,
    compiler: BuildCompiler,
    windows: bool,
    replies: Seq<ExternalReplies>,
) -> Result<Seq<packages::DependencyView>, (int, ExternalStepView)>
    decreases deps.len(),
{
    if deps.len() == 0 {
        Ok(Seq::empty())
    } else {
        let last = deps.len() - 1;
        match externals_step(deps.drop_last(), profile, compiler, windows, replies) {
            Err(step) => Err(step),
            Ok(done) => match external_step(
                deps.last(),
                profile,
                compiler,
                windows,
                replies_for(replies, last),
            ) {
                Err(step) => Err((last, step)),
                Ok(dep) => Ok(done.push(dep)),
            },
        }
    }
}

// ---------------------------------------------------------------------------
// Laws
// ---------------------------------------------------------------------------

proof fn lemma_with_all(list: Seq<Seq<char>>, more: Seq<Seq<char>>)
    ensures
        list.is_prefix_of(with_all(list, more)),
        list.no_duplicates() ==> with_all(list, more).no_duplicates(),
        forall|i: int| 0 <= i < more.len() ==> with_all(list, more).contains(#[trigger] more[i]),
    decreases more.len(),
{
    if more.len() == 0 {
        assert(list.subrange(0, list.len() as int) =~= list);
    } else {
        let before = with_all(list, more.drop_last());
        let after = with_all(list, more);
        lemma_with_all(list, more.drop_last());
        assert(after.subrange(0, before.len() as int) =~= before);
        assert(after.subrange(0, list.len() as int) =~= before.subrange(0, list.len() as int));
        if list.no_duplicates() {
            text::unique_stays_unique(before, more.last());
        }
        assert forall|i: int| 0 <= i < more.len() implies after.contains(#[trigger] more[i]) by {
            if i < more.len() - 1 {
                assert(more.drop_last()[i] == more[i]);
                let k = choose|k: int| 0 <= k < before.len() && before[k] == more[i];
                assert(after[k] == more[i]);
            } else if !before.contains(more.last()) {
                assert(after[before.len() as int] == more.last());
            }
        }
    }
}

proof fn lemma_nothing_new(list: Seq<Seq<char>>, more: Seq<Seq<char>>)
    requires
        forall|i: int| 0 <= i < more.len() ==> list.contains(#[trigger] more[i]),
    ensures
        with_all(list, more) == list,
    decreases more.len(),
{
    if more.len() > 0 {
        assert forall|i: int| 0 <= i < more.len() - 1 implies list.contains(
            #[trigger] more.drop_last()[i],
        ) by {
            assert(more.drop_last()[i] == more[i]);
        }
        lemma_nothing_new(list, more.drop_last());
        assert(list.contains(more[more.len() - 1]));
    }
}

/// Filling in what a dependency does not say about its exports a second time
/// changes nothing.
pub proof fn completing_twice_is_completing_once(
    dep: packages::DependencyView,
    system: ExternalBuildSystem,
    profile: BuildProfile,
    inferred: Option<pkg_config::LinkingView>,
    windows: bool,
)
    ensures
        ({
            let once = completed_exports(dep, system, profile, inferred, windows);
            completed_exports(
                packages::DependencyView { exports: once, ..dep },
                system,
                profile,
                inferred,
                windows,
            ) == once
        }),
{
    let once = completed_exports(dep, system, profile, inferred, windows);
    let libs = if dep.exports.libs.len() == 0 {
        seq![dep.name]
    } else {
        dep.exports.libs
    };
    given_exports_are_kept(dep, system, profile, inferred, windows);
    built_dependency_exports_something(dep, system, profile, inferred, windows);
    lemma_nothing_new(once.lib_dirs, inferred_dirs(inferred));
    lemma_nothing_new(once.libs, inferred_libs(inferred));
    lemma_with_all(with_all(libs, inferred_libs(inferred)), silent_libs(dep.name, windows));
    lemma_nothing_new(once.libs, silent_libs(dep.name, windows));
}

/// What a dependency says that it exports is kept, in front, and whatever
/// pkg-config tells is there too.
pub proof fn given_exports_are_kept(
    dep: packages::DependencyView,
    system: ExternalBuildSystem,
    profile: BuildProfile,
    inferred: Option<pkg_config::LinkingView>,
    windows: bool,
)
    ensures
        ({
            let out = completed_exports(dep, system, profile, inferred, windows);
            &&& dep.exports.include_dirs.is_prefix_of(out.include_dirs)
            &&& dep.exports.lib_dirs.is_prefix_of(out.lib_dirs)
            &&& dep.exports.libs.is_prefix_of(out.libs)
            &&& forall|i: int|
                0 <= i < inferred_dirs(inferred).len() ==> out.lib_dirs.contains(
                    #[trigger] inferred_dirs(inferred)[i],
                )
            &&& forall|i: int|
                0 <= i < inferred_libs(inferred).len() ==> out.libs.contains(
                    #[trigger] inferred_libs(inferred)[i],
                )
        }),
{
    let given = dep.exports;
    let out = completed_exports(dep, system, profile, inferred, windows);
    let dirs = if given.lib_dirs.len() == 0 {
        with_all(given.lib_dirs, usual_library_dirs(system, dep.root_dir, profile))
    } else {
        given.lib_dirs
    };
    let libs = if given.libs.len() == 0 {
        seq![dep.name]
    } else {
        given.libs
    };
    let told = with_all(libs, inferred_libs(inferred));
    lemma_with_all(given.include_dirs, usual_headers(system, dep.root_dir));
    assert(given.include_dirs.subrange(0, given.include_dirs.len() as int)
        =~= given.include_dirs);
    lemma_with_all(dirs, inferred_dirs(inferred));
    assert(given.lib_dirs.is_prefix_of(out.lib_dirs)) by {
        if given.lib_dirs.len() == 0 {
            assert(out.lib_dirs.subrange(0, 0) =~= given.lib_dirs);
        }
    }
    lemma_with_all(libs, inferred_libs(inferred));
    lemma_with_all(told, silent_libs(dep.name, windows));
    assert(told == out.libs.subrange(0, told.len() as int));
    assert(given.libs.is_prefix_of(out.libs)) by {
        if given.libs.len() == 0 {
            assert(out.libs.subrange(0, 0) =~= given.libs);
        } else {
            assert(out.libs.subrange(0, libs.len() as int) =~= told.subrange(
                0,
                libs.len() as int,
            ));
        }
    }
    assert forall|i: int| 0 <= i < inferred_libs(inferred).len() implies out.libs.contains(
        #[trigger] inferred_libs(inferred)[i],
    ) by {
        let k = choose|k: int|
            0 <= k < told.len() && told[k] == inferred_libs(inferred)[i];
        assert(out.libs[k] == out.libs.subrange(0, told.len() as int)[k]);
    }
}

/// A built dependency exports at least one header directory, library directory and library.
pub proof fn built_dependency_exports_something(
    dep: packages::DependencyView,
    system: ExternalBuildSystem,
    profile: BuildProfile,
    inferred: Option<pkg_config::LinkingView>,
    windows: bool,
)
    ensures
        ({
            let out = completed_exports(dep, system, profile, inferred, windows);
            out.include_dirs.len() > 0 && out.lib_dirs.len() > 0 && out.libs.len() > 0
        }),
{
    let given = dep.exports;
    let usual = usual_library_dirs(system, dep.root_dir, profile);
    lemma_with_all(given.include_dirs, usual_headers(system, dep.root_dir));
    lemma_with_all(given.lib_dirs, usual);
    assert(usual_headers(system, dep.root_dir)[0] == dep.root_dir + "/include"@);
    assert(usual[0] == dep.root_dir + "/lib"@);
    let dirs = if given.lib_dirs.len() == 0 {
        with_all(given.lib_dirs, usual)
    } else {
        given.lib_dirs
    };
    lemma_with_all(dirs, inferred_dirs(inferred));
    let libs = if given.libs.len() == 0 {
        seq![dep.name]
    } else {
        given.libs
    };
    lemma_with_all(libs, inferred_libs(inferred));
    lemma_with_all(with_all(libs, inferred_libs(inferred)), silent_libs(dep.name, windows));
}

/// An external dependency is ready only after all the commands that build it
/// have succeeded.
pub proof fn ready_dependency_was_built(
    dep: packages::DependencyView,
    profile: BuildProfile,
    compiler: BuildCompiler,
    windows: bool,
    replies: Option<ExternalReplies>,
)
    requires
        dep.external_build_system is Some,
        external_step(dep, profile, compiler, windows, replies) is Ok,
    ensures
        replies is Some,
        ({
            let commands = building(dep, profile, compiler, windows)->0.commands;
            &&& replies->0.ran@.len() >= commands.len()
            &&& forall|i: int|
                0 <= i < commands.len() ==> programs::succeeded(#[trigger] replies->0.ran@[i])
        }),
{
    let commands = building(dep, profile, compiler, windows)->0.commands;
    programs::commands_run_in_order(commands, replies->0.ran@);
}

/// What a step asks for is not known yet.
pub open spec fn is_open(step: ExternalStepView, replies: Option<ExternalReplies>) -> bool {
    match step {
        ExternalStepView::Announce(_) => replies is None || !replies->0.announced,
        ExternalStepView::CreateDirectories(_) => replies is Some && replies->0.directories is None,
        ExternalStepView::Run { .. } => replies is Some && programs::successes(replies->0.ran@)
            == replies->0.ran@.len(),
        ExternalStepView::LookForPkgConfig { .. } => replies is Some && replies->0.pkg_config
            is None,
        ExternalStepView::ReadPkgConfig(_) => replies is Some && replies->0.pc_content is None,
        ExternalStepView::Failed(_) => true,
    }
}

/// Dependencies are made ready one after another, and only what is not known yet
/// is asked for.
pub proof fn dependencies_are_readied_in_order(
    deps: Seq<packages::DependencyView>,
    profile: BuildProfile,
    compiler: BuildCompiler,
    windows: bool,
    replies: Seq<ExternalReplies>,
)
    ensures
        externals_step(deps, profile, compiler, windows, replies) matches Err((index, step)) ==> {
            &&& 0 <= index < deps.len()
            &&& external_step(deps[index], profile, compiler, windows, replies_for(replies, index))
                == Err::<packages::DependencyView, ExternalStepView>(step)
            &&& is_open(step, replies_for(replies, index))
            &&& forall|i: int|
                0 <= i < index ==> external_step(
                    #[trigger] deps[i],
                    profile,
                    compiler,
                    windows,
                    replies_for(replies, i),
                ) is Ok
        },
        externals_step(deps, profile, compiler, windows, replies) is Ok ==> forall|i: int|
            0 <= i < deps.len() ==> external_step(
                #[trigger] deps[i],
                profile,
                compiler,
                windows,
                replies_for(replies, i),
            ) is Ok,
    decreases deps.len(),
{
    if deps.len() > 0 {
        let before = deps.drop_last();
        dependencies_are_readied_in_order(before, profile, compiler, windows, replies);
        assert forall|i: int| 0 <= i < before.len() implies before[i] == deps[i] by {}
        if let Some(known) = replies_for(replies, deps.len() - 1) {
            programs::lemma_successes(known.ran@);
        }
    }
}

/// Getting dependencies ready keeps how many they are, and their names and order.
pub proof fn ready_dependencies_keep_their_names(
    deps: Seq<packages::DependencyView>,
    profile: BuildProfile,
    compiler: BuildCompiler,
    windows: bool,
    replies: Seq<ExternalReplies>,
)
    ensures
        externals_step(deps, profile, compiler, windows, replies) matches Ok(ready)
            ==> ready.len() == deps.len() && forall|i: int|
            0 <= i < deps.len() ==> (#[trigger] ready[i]).name == deps[i].name,
    decreases deps.len(),
{
    if deps.len() > 0 {
        ready_dependencies_keep_their_names(deps.drop_last(), profile, compiler, windows, replies);
    }
}

/// For each profile CMake is told its build type, by name, when a dependency is
/// configured, and the same one when it is built and installed.
pub proof fn build_type_follows_the_profile(
    dep: packages::DependencyView,
    profile: BuildProfile,
    compiler: BuildCompiler,
    windows: bool,
)
    requires
        dep.external_build_system == Some(ExternalBuildSystem::Cmake),
    ensures
        building(dep, profile, compiler, windows) is Some,
        ({
            let commands = building(dep, profile, compiler, windows)->0.commands;
            &&& commands.len() == 3
            &&& commands[0].program == "cmake"@
            &&& commands[1].program == "cmake"@
            &&& commands[2].program == "cmake"@
            &&& commands[0].args.len() >= 6
            &&& profile == BuildProfile::Debug ==> commands[0].args[4]
                == "-DCMAKE_BUILD_TYPE=Debug"@
            &&& profile == BuildProfile::Release ==> commands[0].args[4]
                == "-DCMAKE_BUILD_TYPE=Release"@
            &&& commands[1].args.len() >= 4 && commands[2].args.len() >= 4
            &&& commands[1].args[0] == "--build"@
            &&& commands[2].args[0] == "--install"@
            &&& commands[1].args[2] == "--config"@
            &&& commands[2].args[2] == "--config"@
            &&& commands[2].args[3] == commands[1].args[3]
            &&& profile == BuildProfile::Debug ==> commands[1].args[3] == "Debug"@
            &&& profile == BuildProfile::Release ==> commands[1].args[3] == "Release"@
        }),
        building(dep, profile, compiler, windows)->0.flags is None,
{
    reveal_strlit("-DCMAKE_BUILD_TYPE=");
    reveal_strlit("Debug");
    reveal_strlit("Release");
    reveal_strlit("-DCMAKE_BUILD_TYPE=Debug");
    reveal_strlit("-DCMAKE_BUILD_TYPE=Release");
    assert("-DCMAKE_BUILD_TYPE="@ + "Debug"@ =~= "-DCMAKE_BUILD_TYPE=Debug"@);
    assert("-DCMAKE_BUILD_TYPE="@ + "Release"@ =~= "-DCMAKE_BUILD_TYPE=Release"@);
    let work = building(dep, profile, compiler, windows)->0;
    assert(work.commands == cmake_commands(dep, profile, compiler, windows));
    let front = seq![
        "-S"@,
        paths::normalized(dep.root_dir),
        "-B"@,
        work.commands[1].args[1],
        "-DCMAKE_BUILD_TYPE="@ + backends::cmake_profile_name(profile),
        "-DCMAKE_INSTALL_PREFIX="@ + built_root(dep, profile, compiler, windows),
    ];
    assert(work.commands[0].args == front + define_words(dep) + backends::toolchain_words(
        compiler,
        windows,
    ) + dep.build.configure_args);
    assert(work.commands[0].args[4] == front[4]);
}

/// The commands of the two profiles differ, in the build type among others.
pub proof fn profiles_build_differently(
    dep: packages::DependencyView,
    compiler: BuildCompiler,
    windows: bool,
)
    requires
        dep.external_build_system == Some(ExternalBuildSystem::Cmake),
    ensures
        ({
            let debug = building(dep, BuildProfile::Debug, compiler, windows)->0.commands;
            let release = building(dep, BuildProfile::Release, compiler, windows)->0.commands;
            &&& debug[0].args[4] != release[0].args[4]
            &&& debug[1].args[3] != release[1].args[3]
            &&& debug[2].args[3] != release[2].args[3]
        }),
{
    build_type_follows_the_profile(dep, BuildProfile::Debug, compiler, windows);
    build_type_follows_the_profile(dep, BuildProfile::Release, compiler, windows);
    reveal_strlit("-DCMAKE_BUILD_TYPE=Debug");
    reveal_strlit("-DCMAKE_BUILD_TYPE=Release");
    reveal_strlit("Debug");
    reveal_strlit("Release");
    assert("Debug"@.len() != "Release"@.len());
    assert("-DCMAKE_BUILD_TYPE=Debug"@.len() != "-DCMAKE_BUILD_TYPE=Release"@.len());
}

/// A dependency is configured from its own directory into a directory of the
/// profile, the dependency and the compiler, built there, and installed next to it,
/// where it is used from; both directories are created before.
pub proof fn dependency_is_built_apart(
    dep: packages::DependencyView,
    profile: BuildProfile,
    compiler: BuildCompiler,
    windows: bool,
)
    requires
        dep.external_build_system == Some(ExternalBuildSystem::Cmake),
    ensures
        ({
            let work = building(dep, profile, compiler, windows)->0;
            let dir = if profile == BuildProfile::Debug {
                "debug"@
            } else {
                "release"@
            };
            let who = if compiler == BuildCompiler::Gcc {
                "gcc"@
            } else {
                "msvc"@
            };
            let place = paths::path_join(
                windows,
                paths::path_join(
                    windows,
                    paths::path_join(windows, paths::path_join(windows, "target"@, dir), "deps"@),
                    dep.name,
                ),
                who,
            );
            let build = paths::path_join(windows, place, "build"@);
            let install = paths::path_join(windows, place, "install"@);
            &&& work.directories == seq![build, install]
            &&& work.commands[0].args[0] == "-S"@
            &&& work.commands[0].args[1] == paths::normalized(dep.root_dir)
            &&& work.commands[0].args[2] == "-B"@
            &&& work.commands[0].args[3] == paths::normalized(build)
            &&& work.commands[0].args[5] == "-DCMAKE_INSTALL_PREFIX="@ + paths::normalized(install)
            &&& work.commands[1].args[1] == paths::normalized(build)
            &&& work.commands[2].args[1] == paths::normalized(build)
            &&& built_root(dep, profile, compiler, windows) == paths::normalized(install)
        }),
{
    let work = building(dep, profile, compiler, windows)->0;
    let front = seq![
        "-S"@,
        paths::normalized(dep.root_dir),
        "-B"@,
        work.commands[1].args[1],
        "-DCMAKE_BUILD_TYPE="@ + backends::cmake_profile_name(profile),
        "-DCMAKE_INSTALL_PREFIX="@ + built_root(dep, profile, compiler, windows),
    ];
    let all = work.commands[0].args;
    assert(all == front + define_words(dep) + backends::toolchain_words(compiler, windows)
        + dep.build.configure_args);
    assert(all[0] == front[0] && all[1] == front[1] && all[2] == front[2] && all[3] == front[3]
        && all[5] == front[5]);
}

/// What the user says on how to configure, build and install a dependency stands at
/// the end of the command for it, behind the compiler; the definitions stand before.
pub proof fn wishes_come_last(
    dep: packages::DependencyView,
    profile: BuildProfile,
    compiler: BuildCompiler,
    windows: bool,
)
    requires
        dep.external_build_system == Some(ExternalBuildSystem::Cmake),
    ensures
        ({
            let commands = building(dep, profile, compiler, windows)->0.commands;
            let n = define_words(dep).len() as int;
            let rest = commands[0].args.skip(6 + n);
            &&& commands[0].args.len() >= 6 + n
            &&& commands[0].args.subrange(6, 6 + n) == define_words(dep)
            &&& commands[1].args.skip(4) == dep.build.build_args
            &&& commands[2].args.skip(4) == dep.build.install_args
            &&& compiler == BuildCompiler::Gcc && !windows ==> rest == seq![
                "-DCMAKE_C_COMPILER=gcc"@,
                "-DCMAKE_CXX_COMPILER=g++"@,
            ] + dep.build.configure_args
            &&& compiler == BuildCompiler::Gcc && windows ==> rest == seq![
                "-G"@,
                "MinGW Makefiles"@,
                "-DCMAKE_C_COMPILER=gcc"@,
                "-DCMAKE_CXX_COMPILER=g++"@,
            ] + dep.build.configure_args
            &&& compiler == BuildCompiler::Msvc && !windows ==> rest == dep.build.configure_args
            &&& compiler == BuildCompiler::Msvc && windows ==> rest == seq![
                "-G"@,
                "Visual Studio 17 2022"@,
            ] + dep.build.configure_args
        }),
{
    let work = building(dep, profile, compiler, windows)->0;
    let front = seq![
        "-S"@,
        paths::normalized(dep.root_dir),
        "-B"@,
        work.commands[1].args[1],
        "-DCMAKE_BUILD_TYPE="@ + backends::cmake_profile_name(profile),
        "-DCMAKE_INSTALL_PREFIX="@ + built_root(dep, profile, compiler, windows),
    ];
    let n = define_words(dep).len() as int;
    let all = work.commands[0].args;
    let tools = backends::toolchain_words(compiler, windows);
    assert(all == front + define_words(dep) + tools + dep.build.configure_args);
    assert(all.subrange(6, 6 + n) =~= define_words(dep));
    assert(all.skip(6 + n) =~= tools + dep.build.configure_args);
    if compiler == BuildCompiler::Gcc {
        if windows {
            assert(tools =~= seq![
                "-G"@,
                "MinGW Makefiles"@,
                "-DCMAKE_C_COMPILER=gcc"@,
                "-DCMAKE_CXX_COMPILER=g++"@,
            ]);
        } else {
            assert(tools =~= seq!["-DCMAKE_C_COMPILER=gcc"@, "-DCMAKE_CXX_COMPILER=g++"@]);
        }
    } else if !windows {
        assert(tools + dep.build.configure_args =~= dep.build.configure_args);
    }
    assert(work.commands[1].args.skip(4) =~= dep.build.build_args);
    assert(work.commands[2].args.skip(4) =~= dep.build.install_args);
}

/// Every definition that the user gives reaches CMake as given. Excluding the
/// examples adds one that switches them off, unless the user defines that one.
pub proof fn definitions_are_those_of_the_user(dep: packages::DependencyView, key: Seq<char>)
    ensures
        ordered_map::has_key(dep.build.defines, key) ==> define_map(dep).dom().contains(key)
            && define_map(dep)[key] == ordered_map::value_of(dep.build.defines, key),
        key != "BUILD_EXAMPLES"@ && !ordered_map::has_key(dep.build.defines, key) ==> !define_map(
            dep,
        ).dom().contains(key),
        !ordered_map::has_key(dep.build.defines, "BUILD_EXAMPLES"@) && (exists|i: int|
            0 <= i < dep.build.exclude.len() && text::lowered(
                text::trimmed(#[trigger] dep.build.exclude[i]),
            ) == "examples"@) ==> define_map(dep).dom().contains("BUILD_EXAMPLES"@) && define_map(
            dep,
        )["BUILD_EXAMPLES"@] == "OFF"@,
        dep.build.exclude.len() == 0 ==> define_map(dep) == ordered_map::map_of(dep.build.defines),
{
    assert(ordered_map::map_of(dep.build.defines).dom().contains(key) == ordered_map::has_key(
        dep.build.defines,
        key,
    ));
    assert(ordered_map::map_of(dep.build.defines).dom().contains("BUILD_EXAMPLES"@)
        == ordered_map::has_key(dep.build.defines, "BUILD_EXAMPLES"@));
}

/// Definitions are told to CMake one by one, in the order of their names.
pub proof fn definitions_are_told_in_order(
    dep: packages::DependencyView,
    entries: Seq<(Seq<char>, Seq<char>)>,
)
    requires
        ordered_map::keys_increase(entries),
        ordered_map::map_of(entries) == define_map(dep),
    ensures
        define_words(dep).len() == entries.len(),
        forall|i: int|
            0 <= i < entries.len() ==> #[trigger] define_words(dep)[i] == "-D"@ + entries[i].0
                + "="@ + entries[i].1,
{
    ordered_map::lemma_entries_of(entries);
}

/// make is run in the directory of a dependency, with flags that optimize in a
/// release and debug otherwise, and the dependency stays where it is.
pub proof fn make_runs_in_place(
    dep: packages::DependencyView,
    profile: BuildProfile,
    compiler: BuildCompiler,
    windows: bool,
)
    requires
        dep.external_build_system == Some(ExternalBuildSystem::Make),
    ensures
        building(dep, profile, compiler, windows) is Some,
        ({
            let work = building(dep, profile, compiler, windows)->0;
            &&& work.directories.len() == 0
            &&& work.commands.len() == 1
            &&& work.commands[0].program == "make"@
            &&& work.commands[0].args == seq!["-C"@, dep.root_dir]
            &&& profile == BuildProfile::Debug ==> work.flags == Some("-O0 -g"@)
            &&& profile == BuildProfile::Release ==> work.flags == Some("-O3 -DNDEBUG"@)
        }),
        built_root(dep, profile, compiler, windows) == paths::normalized(dep.root_dir),
{
}

/// A dependency of cook's own is not built apart, and is used as it is.
pub proof fn own_packages_need_no_preparation(
    dep: packages::DependencyView,
    profile: BuildProfile,
    compiler: BuildCompiler,
    windows: bool,
    replies: Option<ExternalReplies>,
)
    requires
        dep.external_build_system is None,
    ensures
        building(dep, profile, compiler, windows) is None,
        external_step(dep, profile, compiler, windows, replies) == Ok::<
            packages::DependencyView,
            ExternalStepView,
        >(dep),
{
}

/// Where a dependency does not say what it exports, its headers are looked for in
/// `include`, its libraries in the usual places of its build system, and the library
/// bears its name.
pub proof fn silence_means_the_usual_places(
    dep: packages::DependencyView,
    system: ExternalBuildSystem,
    profile: BuildProfile,
    windows: bool,
)
    ensures
        ({
            let out = completed_exports(dep, system, profile, None, windows);
            let root = dep.root_dir;
            &&& dep.exports.include_dirs.len() == 0 && system == ExternalBuildSystem::Cmake
                ==> out.include_dirs == seq![root + "/include"@]
            &&& dep.exports.include_dirs.len() == 0 && system == ExternalBuildSystem::Make
                ==> out.include_dirs == seq![root + "/include"@, root]
            &&& dep.exports.lib_dirs.len() == 0 && system == ExternalBuildSystem::Cmake
                ==> out.lib_dirs == seq![root + "/lib"@, root + "/lib64"@]
            &&& dep.exports.lib_dirs.len() == 0 && system == ExternalBuildSystem::Make && profile
                == BuildProfile::Debug ==> out.lib_dirs == seq![
                root + "/lib"@,
                root + "/target/debug"@,
                root,
            ]
            &&& dep.exports.lib_dirs.len() == 0 && system == ExternalBuildSystem::Make && profile
                == BuildProfile::Release ==> out.lib_dirs == seq![
                root + "/lib"@,
                root + "/target/release"@,
                root,
            ]
            &&& dep.exports.libs.len() == 0 && !windows ==> out.libs == seq![dep.name]
        }),
{
    let root = dep.root_dir;
    reveal_with_fuel(with_all, 4);
    reveal_strlit("/include");
    reveal_strlit("/lib");
    reveal_strlit("/lib64");
    reveal_strlit("/target/");
    reveal_strlit("debug");
    reveal_strlit("release");
    reveal_strlit("/target/debug");
    reveal_strlit("/target/release");
    assert(root + "/target/"@ + "debug"@ =~= root + "/target/debug"@);
    assert(root + "/target/"@ + "release"@ =~= root + "/target/release"@);
    let headers = root + "/include"@;
    let lib = root + "/lib"@;
    let lib64 = root + "/lib64"@;
    let own = root + "/target/"@ + backends::profile_name(profile);
    assert(headers.len() == root.len() + 8);
    assert(lib.len() == root.len() + 4);
    assert(lib64.len() == root.len() + 6);
    assert(own.len() > root.len() + 8);
    lemma_distinct_kept(seq![headers, root]);
    lemma_distinct_kept(seq![headers]);
    lemma_distinct_kept(seq![lib, lib64]);
    lemma_distinct_kept(seq![lib, own, root]);
    assert(dep.exports.include_dirs.len() == 0 ==> dep.exports.include_dirs =~= Seq::empty());
    assert(dep.exports.lib_dirs.len() == 0 ==> dep.exports.lib_dirs =~= Seq::empty());
}

proof fn lemma_distinct_kept(more: Seq<Seq<char>>)
    requires
        more.no_duplicates(),
    ensures
        with_all(Seq::empty(), more) == more,
    decreases more.len(),
{
    if more.len() > 0 {
        let before = more.drop_last();
        assert forall|i: int, j: int| 0 <= i < before.len() && 0 <= j < before.len() && i != j implies
            before[i] != before[j] by {
            assert(before[i] == more[i] && before[j] == more[j]);
        }
        lemma_distinct_kept(before);
        assert(!before.contains(more.last())) by {
            if before.contains(more.last()) {
                let k = choose|k: int| 0 <= k < before.len() && before[k] == more.last();
                assert(more[k] == more[more.len() - 1]);
            }
        }
        assert(before.push(more.last()) =~= more);
    } else {
        assert(more =~= Seq::empty());
    }
}

proof fn lemma_from_either(list: Seq<Seq<char>>, more: Seq<Seq<char>>, item: Seq<char>)
    requires
        with_all(list, more).contains(item),
    ensures
        list.contains(item) || more.contains(item),
    decreases more.len(),
{
    if more.len() > 0 {
        let before = with_all(list, more.drop_last());
        let k = choose|k: int|
            0 <= k < with_all(list, more).len() && with_all(list, more)[k] == item;
        if k < before.len() {
            assert(before[k] == item);
            lemma_from_either(list, more.drop_last(), item);
            if more.drop_last().contains(item) {
                let j = choose|j: int| 0 <= j < more.drop_last().len() && more.drop_last()[j] == item;
                assert(more[j] == item);
            }
        } else {
            assert(item == more.last());
            assert(more[more.len() - 1] == item);
        }
    }
}

/// Nothing is linked that neither the dependency nor pkg-config names, apart from
/// the dependency's own name where it names no library, and three system libraries
/// that raylib needs on Windows and does not name; those are always linked there.
/// What a dependency says of its headers stands alone.
pub proof fn nothing_else_is_linked(
    dep: packages::DependencyView,
    system: ExternalBuildSystem,
    profile: BuildProfile,
    inferred: Option<pkg_config::LinkingView>,
    windows: bool,
    item: Seq<char>,
)
    ensures
        ({
            let out = completed_exports(dep, system, profile, inferred, windows);
            &&& out.libs.contains(item) ==> {
                ||| dep.exports.libs.contains(item)
                ||| dep.exports.libs.len() == 0 && item == dep.name
                ||| inferred is Some && inferred->0.libs.contains(item)
                ||| windows && text::lowered(dep.name) == "raylib"@ && (item == "winmm"@ || item
                    == "gdi32"@ || item == "opengl32"@)
            }
            &&& windows && text::lowered(dep.name) == "raylib"@ ==> out.libs.contains("winmm"@)
                && out.libs.contains("gdi32"@) && out.libs.contains("opengl32"@)
            &&& dep.exports.libs.len() == 0 ==> out.libs[0] == dep.name
            &&& dep.exports.include_dirs.len() > 0 ==> out.include_dirs == dep.exports.include_dirs
            &&& dep.exports.lib_dirs.len() > 0 && out.lib_dirs.contains(item) ==> {
                ||| dep.exports.lib_dirs.contains(item)
                ||| inferred is Some && inferred->0.lib_dirs.contains(item)
            }
        }),
{
    reveal_strlit("raylib");
    assert(text::lowered("raylib"@) =~= "raylib"@);
    let out = completed_exports(dep, system, profile, inferred, windows);
    let libs = if dep.exports.libs.len() == 0 {
        seq![dep.name]
    } else {
        dep.exports.libs
    };
    let told = with_all(libs, inferred_libs(inferred));
    let silent = silent_libs(dep.name, windows);
    if out.libs.contains(item) {
        lemma_from_either(told, silent, item);
        if told.contains(item) {
            lemma_from_either(libs, inferred_libs(inferred), item);
        }
    }
    lemma_with_all(libs, inferred_libs(inferred));
    lemma_with_all(told, silent);
    if silent.len() > 0 {
        assert(out.libs.contains(silent[0]) && out.libs.contains(silent[1]) && out.libs.contains(
            silent[2],
        ));
    }
    assert(told == out.libs.subrange(0, told.len() as int));
    assert(libs == told.subrange(0, libs.len() as int));
    if dep.exports.libs.len() == 0 {
        assert(told[0] == told.subrange(0, libs.len() as int)[0]);
        assert(out.libs[0] == out.libs.subrange(0, told.len() as int)[0]);
    }
    if dep.exports.lib_dirs.len() > 0 && out.lib_dirs.contains(item) {
        lemma_from_either(dep.exports.lib_dirs, inferred_dirs(inferred), item);
    }
}

/// Of the pkg-config files of a dependency, in `lib/pkgconfig` below where it stands,
/// the one of its name is read if it is there, else the first that ends in `.pc`.
pub proof fn own_pkg_config_file_comes_first(
    windows: bool,
    root: Seq<char>,
    name: Seq<char>,
    facts: PkgConfigFacts,
)
    ensures
        !facts.dir_present ==> pc_file(windows, root, name, facts) is None,
        facts.dir_present && facts.preferred_present ==> pc_file(windows, root, name, facts)
            == Some(
            paths::path_join(
                windows,
                paths::path_join(windows, paths::path_join(windows, root, "lib"@), "pkgconfig"@),
                name + ".pc"@,
            ),
        ),
        facts.dir_present && !facts.preferred_present ==> match pc_file(
            windows,
            root,
            name,
            facts,
        ) {
            Some(path) => exists|i: int|
                #![trigger facts.listing@[i]]
                {
                    &&& 0 <= i < facts.listing@.len()
                    &&& facts.listing@[i]@ == path
                    &&& paths::extension(windows, path) is Some
                    &&& text::lowered(paths::extension(windows, path)->0) == "pc"@
                    &&& forall|j: int|
                        0 <= j < i ==> {
                            let other = #[trigger] facts.listing@[j]@;
                            paths::extension(windows, other) is None || text::lowered(
                                paths::extension(windows, other)->0,
                            ) != "pc"@
                        }
                },
            None => forall|j: int|
                0 <= j < facts.listing@.len() ==> {
                    let other = #[trigger] facts.listing@[j]@;
                    paths::extension(windows, other) is None || text::lowered(
                        paths::extension(windows, other)->0,
                    ) != "pc"@
                },
        },
{
    reveal_strlit("pc");
    assert(text::lowered("pc"@) =~= "pc"@);
    let listing = text::texts(facts.listing@);
    lemma_first_pc(windows, listing);
    assert(forall|j: int|
        0 <= j < listing.len() ==> listing[j] == #[trigger] facts.listing@[j]@);
    if facts.dir_present && !facts.preferred_present {
        if let Some(path) = pc_file(windows, root, name, facts) {
            let i = choose|i: int|
                0 <= i < listing.len() && listing[i] == path && is_pc(windows, listing[i])
                    && forall|j: int| 0 <= j < i ==> !is_pc(windows, #[trigger] listing[j]);
            assert(facts.listing@[i]@ == path);
            assert forall|j: int| 0 <= j < i implies {
                let other = #[trigger] facts.listing@[j]@;
                paths::extension(windows, other) is None || text::lowered(
                    paths::extension(windows, other)->0,
                ) != "pc"@
            } by {
                assert(!is_pc(windows, listing[j]));
            }
        } else {
            assert forall|j: int| 0 <= j < facts.listing@.len() implies {
                let other = #[trigger] facts.listing@[j]@;
                paths::extension(windows, other) is None || text::lowered(
                    paths::extension(windows, other)->0,
                ) != "pc"@
            } by {
                assert(!is_pc(windows, listing[j]));
            }
        }
    }
}

proof fn lemma_first_pc(windows: bool, listing: Seq<Seq<char>>)
    ensures
        match first_pc(windows, listing) {
            Some(path) => exists|i: int|
                0 <= i < listing.len() && #[trigger] listing[i] == path && is_pc(
                    windows,
                    listing[i],
                ) && forall|j: int| 0 <= j < i ==> !is_pc(windows, #[trigger] listing[j]),
            None => forall|j: int| 0 <= j < listing.len() ==> !is_pc(windows, #[trigger] listing[j]),
        },
    decreases listing.len(),
{
    if listing.len() > 0 && !is_pc(windows, listing[0]) {
        let rest = listing.drop_first();
        lemma_first_pc(windows, rest);
        assert(forall|j: int| 0 <= j < rest.len() ==> rest[j] == listing[j + 1]);
        if let Some(path) = first_pc(windows, rest) {
            let i = choose|i: int|
                0 <= i < rest.len() && #[trigger] rest[i] == path && is_pc(windows, rest[i])
                    && forall|j: int| 0 <= j < i ==> !is_pc(windows, #[trigger] rest[j]);
            assert(listing[i + 1] == path);
            assert forall|j: int| 0 <= j < i + 1 implies !is_pc(windows, #[trigger] listing[j]) by {
                if j > 0 {
                    assert(!is_pc(windows, rest[j - 1]));
                }
            }
        } else {
            assert forall|j: int| 0 <= j < listing.len() implies !is_pc(
                windows,
                #[trigger] listing[j],
            ) by {
                if j > 0 {
                    assert(!is_pc(windows, rest[j - 1]));
                }
            }
        }
    } else if listing.len() > 0 {
        assert(listing[0] == listing[0]);
    }
}

/// A dependency that has been built keeps its name, its build settings and the rest
/// of what is known of it; only where it stands and what it exports change.
pub proof fn building_changes_place_and_exports_only(
    dep: packages::DependencyView,
    profile: BuildProfile,
    compiler: BuildCompiler,
    windows: bool,
    replies: Option<ExternalReplies>,
    ready: packages::DependencyView,
)
    requires
        dep.external_build_system is Some,
        external_step(dep, profile, compiler, windows, replies) == Ok::<
            packages::DependencyView,
            ExternalStepView,
        >(ready),
    ensures
        ready == (packages::DependencyView {
            root_dir: ready.root_dir,
            exports: ready.exports,
            ..dep
        }),
        ready.root_dir == built_root(dep, profile, compiler, windows),
        dep.exports.include_dirs.is_prefix_of(ready.exports.include_dirs),
        dep.exports.lib_dirs.is_prefix_of(ready.exports.lib_dirs),
        dep.exports.libs.is_prefix_of(ready.exports.libs),
        ready.exports.include_dirs.len() > 0,
        ready.exports.lib_dirs.len() > 0,
        ready.exports.libs.len() > 0,
{
    let system = dep.external_build_system->0;
    let moved = packages::DependencyView {
        root_dir: built_root(dep, profile, compiler, windows),
        ..dep
    };
    let inferred = inferring(
        windows,
        built_root(dep, profile, compiler, windows),
        dep.name,
        replies->0,
    )->Ok_0;
    given_exports_are_kept(moved, system, profile, inferred, windows);
    built_dependency_exports_something(moved, system, profile, inferred, windows);
}

/// The steps of preparing a dependency come in order: the user is told, the
/// directories are created, the commands run in their order with the flags of the
/// profile, and then the pkg-config files are looked at.
pub proof fn preparation_has_an_order(
    dep: packages::DependencyView,
    profile: BuildProfile,
    compiler: BuildCompiler,
    windows: bool,
    replies: Option<ExternalReplies>,
)
    requires
        dep.external_build_system is Some,
    ensures
        replies is None || !replies->0.announced ==> external_step(
            dep,
            profile,
            compiler,
            windows,
            replies,
        ) == Err::<packages::DependencyView, ExternalStepView>(
            ExternalStepView::Announce(
                "preparing external dependency '"@ + dep.name + "' using "@ + (
                if dep.external_build_system == Some(ExternalBuildSystem::Cmake) {
                    "cmake"@
                } else {
                    "make"@
                }),
            ),
        ),
        external_step(dep, profile, compiler, windows, replies) matches Err(
            ExternalStepView::Run { command, flags },
        ) ==> {
            let work = building(dep, profile, compiler, windows)->0;
            &&& replies is Some && replies->0.announced
            &&& dep.external_build_system == Some(ExternalBuildSystem::Cmake)
                ==> replies->0.directories is Some && replies->0.directories->0 is Ok
            &&& replies->0.ran@.len() < work.commands.len()
            &&& command == work.commands[replies->0.ran@.len() as int]
            &&& flags == work.flags
            &&& forall|i: int|
                0 <= i < replies->0.ran@.len() ==> programs::succeeded(
                    #[trigger] replies->0.ran@[i],
                )
        },
        external_step(dep, profile, compiler, windows, replies) matches Err(
            ExternalStepView::LookForPkgConfig { dir, preferred },
        ) ==> {
            let root = built_root(dep, profile, compiler, windows);
            &&& dir == paths::path_join(
                windows,
                paths::path_join(windows, root, "lib"@),
                "pkgconfig"@,
            )
            &&& preferred == paths::path_join(windows, dir, dep.name + ".pc"@)
            &&& replies->0.ran@.len() >= building(
                dep,
                profile,
                compiler,
                windows,
            )->0.commands.len()
        },
{
    if replies is Some {
        programs::lemma_successes(replies->0.ran@);
        programs::commands_run_in_order(
            building(dep, profile, compiler, windows)->0.commands,
            replies->0.ran@,
        );
    }
}

/// What the pkg-config file of a built dependency says about linking is exported; where
/// there is no such file, or it cannot be read, only the usual is.
pub proof fn pkg_config_files_are_heeded(
    dep: packages::DependencyView,
    profile: BuildProfile,
    compiler: BuildCompiler,
    windows: bool,
    replies: ExternalReplies,
    ready: packages::DependencyView,
    facts: PkgConfigFacts,
    item: Seq<char>,
)
    requires
        dep.external_build_system is Some,
        external_step(dep, profile, compiler, windows, Some(replies)) == Ok::<
            packages::DependencyView,
            ExternalStepView,
        >(ready),
        replies.pkg_config == Some(facts),
    ensures
        ({
            let root = built_root(dep, profile, compiler, windows);
            let file = pc_file(windows, root, dep.name, facts);
            &&& file is Some ==> replies.pc_content is Some
            &&& file is Some && replies.pc_content->0 is Some ==> (pkg_config::link_metadata(
                replies.pc_content->0->0@,
            ) matches Some(known) ==> {
                &&& known.libs.contains(item) ==> ready.exports.libs.contains(item)
                &&& known.lib_dirs.contains(item) ==> ready.exports.lib_dirs.contains(item)
            })
            &&& file is None || replies.pc_content->0 is None ==> ready.exports
                == completed_exports(
                packages::DependencyView { root_dir: root, ..dep },
                dep.external_build_system->0,
                profile,
                None,
                windows,
            )
        }),
{
    let root = built_root(dep, profile, compiler, windows);
    let moved = packages::DependencyView { root_dir: root, ..dep };
    let system = dep.external_build_system->0;
    let inferred = inferring(windows, root, dep.name, replies)->Ok_0;
    given_exports_are_kept(moved, system, profile, inferred, windows);
    if let Some(known) = inferred {
        if known.libs.contains(item) {
            let k = choose|k: int| 0 <= k < known.libs.len() && known.libs[k] == item;
            assert(inferred_libs(inferred)[k] == item);
        }
        if known.lib_dirs.contains(item) {
            let k = choose|k: int| 0 <= k < known.lib_dirs.len() && known.lib_dirs[k] == item;
            assert(inferred_dirs(inferred)[k] == item);
        }
    }
}

/// Each dependency is readied by itself, from what is known of it.
pub proof fn dependencies_are_readied_one_by_one(
    deps: Seq<packages::DependencyView>,
    profile: BuildProfile,
    compiler: BuildCompiler,
    windows: bool,
    replies: Seq<ExternalReplies>,
    ready: Seq<packages::DependencyView>,
    i: int,
)
    requires
        externals_step(deps, profile, compiler, windows, replies) == Ok::<
            Seq<packages::DependencyView>,
            (int, ExternalStepView),
        >(ready),
        0 <= i < deps.len(),
    ensures
        ready.len() == deps.len(),
        external_step(
            deps[i],
            profile,
            compiler,
            windows,
            if i < replies.len() {
                Some(replies[i])
            } else {
                None
            },
        ) == Ok::<packages::DependencyView, ExternalStepView>(ready[i]),
    decreases deps.len(),
{
    ready_dependencies_keep_their_names(deps, profile, compiler, windows, replies);
    let before = deps.drop_last();
    if i < before.len() {
        let front = externals_step(before, profile, compiler, windows, replies)->Ok_0;
        dependencies_are_readied_one_by_one(before, profile, compiler, windows, replies, front, i);
        ready_dependencies_keep_their_names(before, profile, compiler, windows, replies);
        assert(ready[i] == front[i]);
    } else {
        ready_dependencies_keep_their_names(before, profile, compiler, windows, replies);
    }
}

/// A dependency that make does not build is complained of by its name, and by its place
/// where make was started.
pub proof fn make_failures_name_the_dependency(
    dep: packages::DependencyView,
    profile: BuildProfile,
    compiler: BuildCompiler,
    windows: bool,
    replies: ExternalReplies,
)
    requires
        dep.external_build_system == Some(ExternalBuildSystem::Make),
        replies.announced,
        replies.ran@.len() > 0,
    ensures
        replies.ran@[0] is NotStarted ==> external_step(
            dep,
            profile,
            compiler,
            windows,
            Some(replies),
        ) == Err::<packages::DependencyView, ExternalStepView>(
            ExternalStepView::Failed("failed to run make for dependency "@ + dep.name),
        ),
        replies.ran@[0] matches ProgramOutcome::Ended { success: false, .. } ==> external_step(
            dep,
            profile,
            compiler,
            windows,
            Some(replies),
        ) == Err::<packages::DependencyView, ExternalStepView>(
            ExternalStepView::Failed(
                "make build failed for dependency '"@ + dep.name + "' at "@ + dep.root_dir,
            ),
        ),
{
    programs::lemma_successes(replies.ran@);
}

/// Items that are new are put behind the others in their own order.
pub proof fn new_items_come_in_order(list: Seq<Seq<char>>, more: Seq<Seq<char>>)
    requires
        more.no_duplicates(),
        forall|i: int| 0 <= i < more.len() ==> !list.contains(#[trigger] more[i]),
    ensures
        with_all(list, more) == list + more,
    decreases more.len(),
{
    if more.len() > 0 {
        let before = more.drop_last();
        assert forall|i: int| 0 <= i < before.len() implies !list.contains(#[trigger] before[i]) by {
            assert(before[i] == more[i]);
        }
        assert forall|i: int, j: int| 0 <= i < before.len() && 0 <= j < before.len() && i != j implies
            before[i] != before[j] by {
            assert(before[i] == more[i] && before[j] == more[j]);
        }
        new_items_come_in_order(list, before);
        assert(!(list + before).contains(more.last())) by {
            if (list + before).contains(more.last()) {
                let k = choose|k: int|
                    0 <= k < (list + before).len() && (list + before)[k] == more.last();
                assert(!list.contains(more[more.len() - 1]));
                if k < list.len() {
                    assert(list[k] == more.last());
                } else {
                    assert(more[k - list.len()] == more[more.len() - 1]);
                }
            }
        }
        assert((list + before).push(more.last()) =~= list + more);
    } else {
        assert(list + more =~= list);
    }
}

// ---------------------------------------------------------------------------
// Functions
// ---------------------------------------------------------------------------

/// The CMake definitions of a dependency.
pub fn cmake_defines_for_dependency(dep: &ResolvedDependency) -> (r: OrderedMap<String>)
    ensures
        ordered_map::text_pairs(r@) == ordered_map::entries_of(define_map(dep@)),
{
    let mut defines = dep.build.cmake.defines.copied();
    let ghost given = defines@;
    let count = defines.len();
    proof {
        ordered_map::lemma_text_pairs(given);
    }
    let ghost before = ordered_map::map_of(given);
    let ghost texts = ordered_map::map_of(dep@.build.defines);
    assert(texts == before.map_values(|s: String| s@));
    let mut wanted = false;
    let mut i: usize = 0;
    while i < dep.build.exclude.len()
        invariant
            i <= dep.build.exclude@.len(),
            wanted ==> excludes_examples(dep@.build.exclude),
            !wanted ==> forall|j: int|
                0 <= j < i ==> text::lowered(text::trimmed(#[trigger] dep@.build.exclude[j]))
                    != "examples"@,
        decreases dep.build.exclude.len() - i,
    {
        let word = text::to_lower(text::trim(dep.build.exclude[i].as_str()).as_str());
        assert(dep@.build.exclude[i as int] == dep.build.exclude@[i as int]@);
        if text::same_text(word.as_str(), "examples") {
            wanted = true;
        }
        i += 1;
    }
    if wanted && !defines.contains_key("BUILD_EXAMPLES") {
        defines.insert("BUILD_EXAMPLES".to_owned(), "OFF".to_owned());
        assert(ordered_map::map_of(defines@).map_values(|s: String| s@) =~= texts.insert(
            "BUILD_EXAMPLES"@,
            "OFF"@,
        ));
    }
    proof {
        ordered_map::lemma_text_pairs(defines@);
        assert(ordered_map::map_of(ordered_map::text_pairs(defines@)) == define_map(dep@));
        ordered_map::lemma_entries_of(ordered_map::text_pairs(defines@));
    }
    defines
}

fn define_args(dep: &ResolvedDependency) -> (r: Vec<String>)
    ensures
        text::texts(r@) == define_words(dep@),
{
    let defines = cmake_defines_for_dependency(dep);
    let ghost entries = ordered_map::text_pairs(defines@);
    let count = defines.len();
    let mut out: Vec<String> = Vec::new();
    let mut i: usize = 0;
    while i < count
        invariant
            i <= count == defines@.len(),
            entries == ordered_map::text_pairs(defines@),
            out@.len() == i,
            forall|j: int|
                0 <= j < i ==> #[trigger] out@[j]@ == "-D"@ + entries[j].0 + "="@ + entries[j].1,
        decreases count - i,
    {
        let mut word = "-D".to_owned();
        word.append(defines.key_at(i).as_str());
        word.append("=");
        word.append(defines.value_at(i).as_str());
        out.push(word);
        i += 1;
    }
    assert(text::texts(out@) =~= define_words(dep@));
    out
}

/// Where a dependency is built and installed.
fn external_base_dir(
    name: &str,
    profile: BuildProfile,
    compiler: BuildCompiler,
    windows: bool,
) -> (r: String)
    ensures
        r@ == external_base(name@, profile, compiler, windows),
{
    let dir = paths::join(windows, "target", profile.as_str());
    let dir = paths::join(windows, dir.as_str(), "deps");
    let dir = paths::join(windows, dir.as_str(), name);
    paths::join(windows, dir.as_str(), backends::compiler_id(compiler))
}

/// The directories to create before CMake builds a dependency: the one it works
/// in and the one it installs to.
pub fn external_cmake_dirs(
    name: &str,
    profile: BuildProfile,
    compiler: BuildCompiler,
    windows: bool,
) -> (r: (String, String))
    ensures
        r.0@ == paths::path_join(windows, external_base(name@, profile, compiler, windows), "build"@),
        r.1@ == paths::path_join(windows, external_base(name@, profile, compiler, windows), "install"@),
{
    let base = external_base_dir(name, profile, compiler, windows);
    (
        paths::join(windows, base.as_str(), "build"),
        paths::join(windows, base.as_str(), "install"),
    )
}

/// The commands by which CMake builds and installs a dependency.
pub fn build_external_cmake_dependency(
    dep: &ResolvedDependency,
    profile: BuildProfile,
    compiler: BuildCompiler,
    windows: bool,
) -> (r: Vec<CommandSpec>)
    ensures
        backends::command_views(r@) == cmake_commands(dep@, profile, compiler, windows),
{
    let ghost want = cmake_commands(dep@, profile, compiler, windows);
    let (build, install) = external_cmake_dirs(dep.name.as_str(), profile, compiler, windows);
    let build_dir = paths::normalize_path(build.as_str());
    let install_dir = paths::normalize_path(install.as_str());
    let build_type = profile.cmake_config_name();
    let mut type_arg = "-DCMAKE_BUILD_TYPE=".to_owned();
    type_arg.append(build_type);
    let mut prefix_arg = "-DCMAKE_INSTALL_PREFIX=".to_owned();
    prefix_arg.append(install_dir.as_str());

    let mut configure: Vec<String> = Vec::new();
    text::push_text(&mut configure, "-S");
    text::push_text(&mut configure, paths::normalize_path(dep.root_dir.as_str()).as_str());
    text::push_text(&mut configure, "-B");
    text::push_text(&mut configure, build_dir.as_str());
    text::push_text(&mut configure, type_arg.as_str());
    text::push_text(&mut configure, prefix_arg.as_str());
    text::push_texts(&mut configure, &define_args(dep));
    text::push_texts(&mut configure, &backends::cmake_toolchain_args(compiler, windows));
    text::push_texts(&mut configure, &dep.build.configure_args);
    assert(text::texts(configure@) =~= want[0].args);

    let mut compile: Vec<String> = Vec::new();
    text::push_text(&mut compile, "--build");
    text::push_text(&mut compile, build_dir.as_str());
    text::push_text(&mut compile, "--config");
    text::push_text(&mut compile, build_type);
    text::push_texts(&mut compile, &dep.build.build_args);
    assert(text::texts(compile@) =~= want[1].args);

    let mut put: Vec<String> = Vec::new();
    text::push_text(&mut put, "--install");
    text::push_text(&mut put, build_dir.as_str());
    text::push_text(&mut put, "--config");
    text::push_text(&mut put, build_type);
    text::push_texts(&mut put, &dep.build.install_args);
    assert(text::texts(put@) =~= want[2].args);

    let mut out: Vec<CommandSpec> = Vec::new();
    out.push(CommandSpec { program: "cmake".to_owned(), args: configure });
    out.push(CommandSpec { program: "cmake".to_owned(), args: compile });
    out.push(CommandSpec { program: "cmake".to_owned(), args: put });
    assert(backends::command_views(out@) =~= want);
    out
}

/// The command by which make builds a dependency, and the flags to set as
/// `CFLAGS` and `CXXFLAGS`.
pub fn build_external_make_dependency(dep: &ResolvedDependency, profile: BuildProfile) -> (r: (
    CommandSpec,
    &'static str,
))
    ensures
        r.0@ == make_command(dep@),
        r.1@ == make_flags(profile),
{
    let mut args: Vec<String> = Vec::new();
    text::push_text(&mut args, "-C");
    text::push_text(&mut args, dep.root_dir.as_str());
    assert(text::texts(args@) =~= make_command(dep@).args);
    let flags = match profile {
        BuildProfile::Release => "-O3 -DNDEBUG",
        BuildProfile::Debug => "-O0 -g",
    };
    (CommandSpec { program: "make".to_owned(), args }, flags)
}

/// What has to be done to build an external dependency; none for another one.
pub fn external_build(
    dep: &ResolvedDependency,
    profile: BuildProfile,
    compiler: BuildCompiler,
    windows: bool,
) -> (r: Option<ExternalBuild>)
    ensures
        (match r {
            Some(build) => Some(build@),
            None => None,
        }) == building(dep@, profile, compiler, windows),
{
    let system = match dep.external_build_system {
        Some(system) => system,
        None => {
            return None;
        },
    };
    let mut announcement = "preparing external dependency '".to_owned();
    announcement.append(dep.name.as_str());
    announcement.append("' using ");
    announcement.append(system.as_str());
    match system {
        ExternalBuildSystem::Cmake => {
            let name = dep.name.as_str();
            let (build, install) = external_cmake_dirs(name, profile, compiler, windows);
            let mut directories: Vec<String> = Vec::new();
            text::push_text(&mut directories, build.as_str());
            text::push_text(&mut directories, install.as_str());
            assert(text::texts(directories@) =~= seq![build@, install@]);
            let commands = build_external_cmake_dependency(dep, profile, compiler, windows);
            Some(ExternalBuild { announcement, directories, commands, flags: None })
        },
        ExternalBuildSystem::Make => {
            let (command, flags) = build_external_make_dependency(dep, profile);
            let mut commands: Vec<CommandSpec> = Vec::new();
            let ghost view = command@;
            commands.push(command);
            assert(backends::command_views(commands@) =~= seq![view]);
            let directories: Vec<String> = Vec::new();
            assert(text::texts(directories@) =~= Seq::empty());
            Some(
                ExternalBuild {
                    announcement,
                    directories,
                    commands,
                    flags: Some(flags.to_owned()),
                },
            )
        },
    }
}

/// What to do next about the commands that build an external dependency, of
/// which those in front have come to `ran`.
pub fn external_progress(
    dep: &ResolvedDependency,
    commands: &Vec<CommandSpec>,
    ran: &Vec<ProgramOutcome>,
) -> (r: CommandProgress)
    ensures
        r@ == building_progress(dep@, backends::command_views(commands@), ran@),
{
    let plain = programs::run_commands(commands, ran);
    let make = match dep.external_build_system {
        Some(ExternalBuildSystem::Make) => true,
        _ => false,
    };
    if !make {
        return plain;
    }
    match plain {
        CommandProgress::Failed(_) => {
            proof {
                programs::lemma_successes(ran@);
            }
            let mut n: usize = 0;
            let ghost all = ran@;
            assert(all.skip(0) == all);
            while n < ran.len() && programs::has_succeeded(&ran[n])
                invariant
                    n <= ran@.len(),
                    all == ran@,
                    programs::successes(all) == n + programs::successes(all.skip(n as int)),
                    programs::successes(all) < all.len(),
                ensures
                    n < ran@.len(),
                    n == programs::successes(all),
                decreases ran.len() - n,
            {
                assert(all.skip(n as int).drop_first() == all.skip(n + 1));
                n += 1;
            }
            let mut message = String::new();
            match &ran[n] {
                ProgramOutcome::NotStarted(_) => {
                    message = "failed to run make for dependency ".to_owned();
                    message.append(dep.name.as_str());
                },
                ProgramOutcome::Ended { success: _, status: _, output: _ } => {
                    message = "make build failed for dependency '".to_owned();
                    message.append(dep.name.as_str());
                    message.append("' at ");
                    message.append(dep.root_dir.as_str());
                },
            }
            CommandProgress::Failed(Failure::new(message))
        },
        other => other,
    }
}

/// Where a dependency stands after it has been built.
pub fn root_after_build(
    dep: &ResolvedDependency,
    profile: BuildProfile,
    compiler: BuildCompiler,
    windows: bool,
) -> (r: String)
    ensures
        r@ == built_root(dep@, profile, compiler, windows),
{
    match dep.external_build_system {
        Some(ExternalBuildSystem::Cmake) => {
            let name = dep.name.as_str();
            let (_build, install) = external_cmake_dirs(name, profile, compiler, windows);
            paths::normalize_path(install.as_str())
        },
        _ => paths::normalize_path(dep.root_dir.as_str()),
    }
}

/// Where the pkg-config files of a dependency that stands in `root` are, and
/// which of them bears its name.
pub fn pkg_config_places(root: &str, name: &str, windows: bool) -> (r: (String, String))
    ensures
        r.0@ == pkg_config_dir(windows, root@),
        r.1@ == preferred_pc(windows, root@, name@),
{
    let lib = paths::join(windows, root, "lib");
    let dir = paths::join(windows, lib.as_str(), "pkgconfig");
    let mut file = name.to_owned();
    file.append(".pc");
    let preferred = paths::join(windows, dir.as_str(), file.as_str());
    (dir, preferred)
}

/// The pkg-config file to read: the one with the name of the dependency if
/// `preferred_present`, else the first one that `listing` holds.
pub fn choose_pc_file(
    preferred: &str,
    preferred_present: bool,
    listing: &Vec<String>,
    windows: bool,
) -> (r: Option<String>)
    ensures
        text::opt_text(r) == (if preferred_present {
            Some(preferred@)
        } else {
            first_pc(windows, text::texts(listing@))
        }),
{
    if preferred_present {
        return Some(preferred.to_owned());
    }
    let ghost all = text::texts(listing@);
    let mut i: usize = 0;
    assert(all.skip(0) == all);
    while i < listing.len()
        invariant
            i <= listing@.len(),
            !preferred_present,
            all == text::texts(listing@),
            first_pc(windows, all) == first_pc(windows, all.skip(i as int)),
        decreases listing.len() - i,
    {
        assert(all.skip(i as int).drop_first() == all.skip(i + 1));
        assert(all.skip(i as int)[0] == listing@[i as int]@);
        if let Some(ext) = paths::extension_of(windows, listing[i].as_str()) {
            if text::same_ignoring_case(ext.as_str(), "pc") {
                return Some(listing[i].clone());
            }
        }
        i += 1;
    }
    assert(all.skip(i as int).len() == 0);
    None
}

fn push_all_unique(target: &mut Vec<String>, more: &Vec<String>)
    ensures
        text::texts(final(target)@) == with_all(text::texts(old(target)@), text::texts(more@)),
{
    let ghost before = text::texts(target@);
    let ghost all = text::texts(more@);
    let mut i: usize = 0;
    while i < more.len()
        invariant
            i <= more@.len(),
            all == text::texts(more@),
            before == text::texts(old(target)@),
            text::texts(target@) == with_all(before, all.take(i as int)),
        decreases more.len() - i,
    {
        assert(all.take(i + 1).drop_last() == all.take(i as int));
        assert(all.take(i + 1).last() == more@[i as int]@);
        text::push_unique(target, more[i].clone());
        i += 1;
    }
    assert(all.take(all.len() as int) == all);
}

fn under(root: &str, rest: &str) -> (r: String)
    ensures
        r@ == root@ + rest@,
{
    let mut out = root.to_owned();
    out.append(rest);
    out
}

fn headers_to_try(system: ExternalBuildSystem, root: &str) -> (r: Vec<String>)
    ensures
        text::texts(r@) == usual_headers(system, root@),
{
    let mut out: Vec<String> = Vec::new();
    text::push_text(&mut out, under(root, "/include").as_str());
    if let ExternalBuildSystem::Make = system {
        text::push_text(&mut out, root);
    }
    assert(text::texts(out@) =~= usual_headers(system, root@));
    out
}

fn library_dirs_to_try(system: ExternalBuildSystem, root: &str, profile: BuildProfile) -> (r: Vec<
    String,
>)
    ensures
        text::texts(r@) == usual_library_dirs(system, root@, profile),
{
    let mut out: Vec<String> = Vec::new();
    text::push_text(&mut out, under(root, "/lib").as_str());
    match system {
        ExternalBuildSystem::Cmake => {
            text::push_text(&mut out, under(root, "/lib64").as_str());
        },
        ExternalBuildSystem::Make => {
            let mut dir = under(root, "/target/");
            dir.append(profile.as_str());
            text::push_text(&mut out, dir.as_str());
            text::push_text(&mut out, root);
        },
    }
    assert(text::texts(out@) =~= usual_library_dirs(system, root@, profile));
    out
}

fn libs_to_add(name: &str, windows: bool) -> (r: Vec<String>)
    ensures
        text::texts(r@) == silent_libs(name@, windows),
{
    let mut out: Vec<String> = Vec::new();
    if windows && text::same_ignoring_case(name, "raylib") {
        text::push_text(&mut out, "winmm");
        text::push_text(&mut out, "gdi32");
        text::push_text(&mut out, "opengl32");
    }
    assert(text::texts(out@) =~= silent_libs(name@, windows));
    out
}

/// Fills in what a built external dependency does not say that it exports.
pub fn apply_external_export_defaults(
    dep: &mut ResolvedDependency,
    profile: BuildProfile,
    inferred: Option<&PkgConfigLinkMetadata>,
    windows: bool,
)
    ensures
        final(dep)@ == (match old(dep)@.external_build_system {
            None => old(dep)@,
            Some(system) => packages::DependencyView {
                exports: completed_exports(
                    old(dep)@,
                    system,
                    profile,
                    match inferred {
                        Some(known) => Some(known@),
                        None => None,
                    },
                    windows,
                ),
                ..old(dep)@
            },
        }),
{
    let system = match dep.external_build_system {
        Some(system) => system,
        None => {
            return;
        },
    };
    let ghost before = dep@;
    let ghost known = match inferred {
        Some(k) => Some(k@),
        None => None,
    };
    if dep.exports.include_dirs.len() == 0 {
        let usual = headers_to_try(system, dep.root_dir.as_str());
        push_all_unique(&mut dep.exports.include_dirs, &usual);
    }
    if dep.exports.lib_dirs.len() == 0 {
        let usual = library_dirs_to_try(system, dep.root_dir.as_str(), profile);
        push_all_unique(&mut dep.exports.lib_dirs, &usual);
    }
    if dep.exports.libs.len() == 0 {
        let name = dep.name.clone();
        assert(text::texts(dep.exports.libs@) =~= Seq::empty());
        dep.exports.libs.push(name);
        assert(text::texts(dep.exports.libs@) =~= seq![before.name]);
    }
    if let Some(metadata) = inferred {
        push_all_unique(&mut dep.exports.lib_dirs, &metadata.lib_dirs);
        push_all_unique(&mut dep.exports.libs, &metadata.libs);
    }
    let more = libs_to_add(dep.name.as_str(), windows);
    push_all_unique(&mut dep.exports.libs, &more);
    assert(dep@.exports =~= completed_exports(before, system, profile, known, windows));
}

/// A dependency once it is built: where it stands, and what it exports.
pub fn finish_external_dependency(
    dep: &mut ResolvedDependency,
    profile: BuildProfile,
    compiler: BuildCompiler,
    inferred: Option<&PkgConfigLinkMetadata>,
    windows: bool,
)
    ensures
        final(dep)@ == prepared(
            old(dep)@,
            profile,
            compiler,
            match inferred {
                Some(known) => Some(known@),
                None => None,
            },
            windows,
        ),
{
    if dep.external_build_system.is_none() {
        return;
    }
    let root = root_after_build(dep, profile, compiler, windows);
    dep.root_dir = root;
    apply_external_export_defaults(dep, profile, inferred, windows);
}

impl ExternalReplies {
    /// Nothing is known yet.
    pub fn new() -> (r: Self)
        ensures
            !r.announced,
            r.directories is None,
            r.ran@.len() == 0,
            r.pkg_config is None,
            r.pc_content is None,
    {
        ExternalReplies {
            announced: false,
            directories: None,
            ran: Vec::new(),
            pkg_config: None,
            pc_content: None,
        }
    }
}

/// What pkg-config tells of a dependency that stands in `root`, or how to find out.
pub fn infer_pkg_config_link_metadata(
    root: &str,
    name: &str,
    replies: &ExternalReplies,
    windows: bool,
) -> (r: Result<Option<PkgConfigLinkMetadata>, ExternalStep>)
    ensures
        match inferring(windows, root@, name@, *replies) {
            Ok(known) => r is Ok && (match r->Ok_0 {
                Some(m) => Some(m@),
                None => None,
            }) == known,
            Err(step) => r is Err && r->Err_0@ == step,
        },
{
    let (dir, preferred) = pkg_config_places(root, name, windows);
    let facts = match &replies.pkg_config {
        None => {
            return Err(ExternalStep::LookForPkgConfig { dir, preferred });
        },
        Some(facts) => facts,
    };
    if !facts.dir_present {
        return Ok(None);
    }
    match choose_pc_file(preferred.as_str(), facts.preferred_present, &facts.listing, windows) {
        None => Ok(None),
        Some(path) => match &replies.pc_content {
            None => Err(ExternalStep::ReadPkgConfig(path)),
            Some(None) => Ok(None),
            Some(Some(content)) => Ok(
                pkg_config::parse_pkg_config_link_metadata(content.as_str()),
            ),
        },
    }
}

/// A dependency ready for use, or what to do next for it.
pub fn prepare_external_dependency(
    dep: &ResolvedDependency,
    profile: BuildProfile,
    compiler: BuildCompiler,
    windows: bool,
    replies: Option<&ExternalReplies>,
) -> (r: Result<ResolvedDependency, ExternalStep>)
    ensures
        match external_step(
            dep@,
            profile,
            compiler,
            windows,
            match replies {
                Some(known) => Some(*known),
                None => None,
            },
        ) {
            Ok(ready) => r is Ok && r->Ok_0@ == ready,
            Err(step) => r is Err && r->Err_0@ == step,
        },
{
    let work = match external_build(dep, profile, compiler, windows) {
        None => {
            return Ok(dep.clone());
        },
        Some(work) => work,
    };
    let known = match replies {
        None => {
            return Err(ExternalStep::Announce(work.announcement));
        },
        Some(known) => known,
    };
    if !known.announced {
        return Err(ExternalStep::Announce(work.announcement));
    }
    assert(work@.directories.len() == work.directories@.len());
    if work.directories.len() > 0 {
        match &known.directories {
            None => {
                return Err(ExternalStep::CreateDirectories(work.directories));
            },
            Some(Err(failure)) => {
                return Err(ExternalStep::Failed(failure.copied()));
            },
            Some(Ok(_)) => {},
        }
    }
    match external_progress(dep, &work.commands, &known.ran) {
        CommandProgress::Run(i) => {
            proof {
                programs::lemma_successes(known.ran@);
            }
            assert(work@.commands[i as int] == work.commands@[i as int]@);
            Err(ExternalStep::Run { command: work.commands[i].copied(), flags: work.flags })
        },
        CommandProgress::Failed(failure) => Err(ExternalStep::Failed(failure)),
        CommandProgress::Done => {
            let root = root_after_build(dep, profile, compiler, windows);
            match infer_pkg_config_link_metadata(root.as_str(), dep.name.as_str(), known, windows) {
                Err(step) => Err(step),
                Ok(inferred) => {
                    let mut ready = dep.clone();
                    let metadata = match &inferred {
                        Some(m) => Some(m),
                        None => None,
                    };
                    finish_external_dependency(&mut ready, profile, compiler, metadata, windows);
                    Ok(ready)
                },
            }
        },
    }
}

/// The dependencies of a project ready for use, or what to do next, and for
/// which of them.
pub fn prepare_external_dependencies(
    dependencies: &Vec<ResolvedDependency>,
    profile: BuildProfile,
    compiler: BuildCompiler,
    windows: bool,
    replies: &Vec<ExternalReplies>,
) -> (r: Result<Vec<ResolvedDependency>, (usize, ExternalStep)>)
    ensures
        match externals_step(
            packages::dependency_views(dependencies@),
            profile,
            compiler,
            windows,
            replies@,
        ) {
            Ok(ready) => r is Ok && packages::dependency_views(r->Ok_0@) == ready,
            Err((index, step)) => r is Err && r->Err_0.0 == index && r->Err_0.1@ == step,
        },
{
    let ghost all = packages::dependency_views(dependencies@);
    let mut out: Vec<ResolvedDependency> = Vec::new();
    let mut i: usize = 0;
    assert(packages::dependency_views(out@) =~= Seq::empty());
    while i < dependencies.len()
        invariant
            i <= dependencies@.len(),
            all == packages::dependency_views(dependencies@),
            externals_step(all.take(i as int), profile, compiler, windows, replies@) == Ok::<
                Seq<packages::DependencyView>,
                (int, ExternalStepView),
            >(packages::dependency_views(out@)),
        decreases dependencies.len() - i,
    {
        let ghost more = all.take(i + 1);
        assert(more.drop_last() == all.take(i as int));
        assert(more.last() == dependencies@[i as int]@);
        let known = if i < replies.len() {
            Some(&replies[i])
        } else {
            None
        };
        match prepare_external_dependency(&dependencies[i], profile, compiler, windows, known) {
            Err(step) => {
                proof {
                    lemma_externals_stop(all, profile, compiler, windows, replies@, i + 1);
                }
                return Err((i, step));
            },
            Ok(ready) => {
                let ghost before = packages::dependency_views(out@);
                let ghost view = ready@;
                out.push(ready);
                assert(packages::dependency_views(out@) =~= before.push(view));
            },
        }
        i += 1;
    }
    assert(all.take(all.len() as int) == all);
    Ok(out)
}

proof fn lemma_externals_stop(
    deps: Seq<packages::DependencyView>,
    profile: BuildProfile,
    compiler: BuildCompiler,
    windows: bool,
    replies: Seq<ExternalReplies>,
    n: int,
)
    requires
        0 <= n <= deps.len(),
        externals_step(deps.take(n), profile, compiler, windows, replies) is Err,
    ensures
        externals_step(deps, profile, compiler, windows, replies) == externals_step(
            deps.take(n),
            profile,
            compiler,
            windows,
            replies,
        ),
    decreases deps.len(),
{
    if n < deps.len() {
        assert(deps.drop_last().take(n) == deps.take(n));
        lemma_externals_stop(deps.drop_last(), profile, compiler, windows, replies, n);
    } else {
        assert(deps.take(n) == deps);
    }
}

}
