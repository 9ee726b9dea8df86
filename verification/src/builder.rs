//! Creating, building, running and cleaning a project.
//!
//! Whatever takes more than one look at the world is told what has been seen and
//! done so far, and says what to do next.
use vstd::prelude::*;
use vstd::string::*;

use crate::backends;
use crate::backends::{
    BuildBackend, BuildPlan, BuildProfile, CmakeBackend, CommandSpec, MakeBackend,
};
use crate::cache;
use crate::cache::SourceFacts;
use crate::config;
use crate::config::{BuildCompileParams, CookConfig};
use crate::digest;
use crate::externals;
use crate::externals::{ExternalReplies, ExternalStep};
use crate::failure::Failure;
use crate::lockfile;
use crate::lockfile::CookLock;
use crate::ordered_map::OrderedMap;
use crate::packages;
use crate::packages::{ResolutionResult, ResolvedDependency};
use crate::paths;
use crate::programs;
use crate::programs::{CommandProgress, ProgramOutcome};
use crate::project;
use crate::project::{ProjectReplies, ProjectStep};
use crate::scanner;
use crate::text;

verus! {

broadcast use vstd::string::group_string_axioms;

// ---------------------------------------------------------------------------
// New projects
// ---------------------------------------------------------------------------

/// The files of a new project.
#[derive(Debug)]
pub struct NewProject {
    pub source_dir: String,
    pub manifest_path: String,
    pub manifest: String,
    pub main_path: String,
    pub main: String,
}

/// The `cook.toml` of a new project.
pub open spec fn new_manifest(name: Seq<char>) -> Seq<char> {
    "[project]\nname = \""@ + name
        + "\"\ncpp_standard = \"17\"\n\n[build]\nbackend = \"cmake\"\ncompiler = \"gcc\"\nstrict_lock_in_ci = true\noffline = false\n\n[resolver]\nwrite_lockfile = true\n\n[project.abi]\n# compiler = \"clang\"\n# compiler_version = \"18\"\n# arch = \"x86_64\"\n\n[dependencies]\n"@
}

/// The `main.cpp` of a new project.
pub open spec fn new_main() -> Seq<char> {
    "#include <iostream>\n\nint main() {\n    std::cout << \"Hello from Cook!\" << std::endl;\n    return 0;\n}\n"@
}

/// What is wrong with a new project, if anything.
pub open spec fn new_project_complaint(name: Seq<char>, occupied: bool) -> Option<Seq<char>> {
    if text::trimmed(name).len() == 0 {
        Some("project name cannot be empty"@)
    } else if occupied {
        Some("target directory '"@ + name + "' already exists and is not empty"@)
    } else {
        None
    }
}

/// The files of a new project. `occupied` tells whether there is a directory of
/// that name with something in it, `windows` whether paths follow the rules of Windows.
pub fn new_project(name: &str, occupied: bool, windows: bool) -> (r: Result<NewProject, Failure>)
    ensures
        match new_project_complaint(name@, occupied) {
            Some(message) => r is Err && r->Err_0@ == message,
            None => r is Ok && r->Ok_0.source_dir@ == paths::path_join(windows, name@, "src"@)
                && r->Ok_0.manifest_path@ == paths::path_join(windows, name@, "cook.toml"@)
                && r->Ok_0.manifest@ == new_manifest(name@) && r->Ok_0.main_path@
                == paths::path_join(windows, name@, "src/main.cpp"@) && r->Ok_0.main@ == new_main(),
        },
{
    if text::blank(name) {
        return Err(Failure::new("project name cannot be empty".to_owned()));
    }
    if occupied {
        let mut message = "target directory '".to_owned();
        message.append(name);
        message.append("' already exists and is not empty");
        return Err(Failure::new(message));
    }
    let mut manifest = "[project]\nname = \"".to_owned();
    manifest.append(name);
    manifest.append(
        "\"\ncpp_standard = \"17\"\n\n[build]\nbackend = \"cmake\"\ncompiler = \"gcc\"\nstrict_lock_in_ci = true\noffline = false\n\n[resolver]\nwrite_lockfile = true\n\n[project.abi]\n# compiler = \"clang\"\n# compiler_version = \"18\"\n# arch = \"x86_64\"\n\n[dependencies]\n",
    );
    Ok(
        NewProject {
            source_dir: paths::join(windows, name, "src"),
            manifest_path: paths::join(windows, name, "cook.toml"),
            manifest,
            main_path: paths::join(windows, name, "src/main.cpp"),
            main: "#include <iostream>\n\nint main() {\n    std::cout << \"Hello from Cook!\" << std::endl;\n    return 0;\n}\n".to_owned(),
        },
    )
}

// ---------------------------------------------------------------------------
// Locking
// ---------------------------------------------------------------------------

/// What becomes of the lockfile before a build.
#[derive(Debug, Clone, Copy, PartialEq, Eq, Structural)]
pub enum LockAction {
    /// It has to say what the resolution says.
    RequireMatch,
    /// It is written.
    Write,
    /// It is left alone.
    Leave,
}

/// A setting in the environment that is switched on.
pub open spec fn is_switched_on(value: Option<Seq<char>>) -> bool {
    value is Some && (text::lowered(value->0) == "1"@ || text::lowered(value->0) == "true"@
        || text::lowered(value->0) == "yes"@)
}

/// What becomes of the lockfile before a build.
pub open spec fn lock_action(
    cfg: CookConfig,
    ci: Option<Seq<char>>,
    cook_locked: Option<Seq<char>>,
) -> LockAction {
    if is_switched_on(cook_locked) || (is_switched_on(ci) && cfg.build.strict_lock_in_ci) {
        LockAction::RequireMatch
    } else if cfg.resolver.write_lockfile {
        LockAction::Write
    } else {
        LockAction::Leave
    }
}

/// In a locked build the lockfile is never written.
pub proof fn locked_builds_do_not_write(
    cfg: CookConfig,
    ci: Option<Seq<char>>,
    cook_locked: Option<Seq<char>>,
)
    requires
        is_switched_on(cook_locked) || (is_switched_on(ci) && cfg.build.strict_lock_in_ci),
    ensures
        lock_action(cfg, ci, cook_locked) == LockAction::RequireMatch,
{
}

fn switched_on(value: Option<&str>) -> (r: bool)
    ensures
        r == is_switched_on(
            match value {
                Some(v) => Some(v@),
                None => None,
            },
        ),
{
    match value {
        None => false,
        Some(v) => {
            let lower = text::to_lower(v);
            text::same_text(lower.as_str(), "1") || text::same_text(lower.as_str(), "true")
                || text::same_text(lower.as_str(), "yes")
        },
    }
}

/// What becomes of the lockfile before a build, where the environment sets `CI`
/// to `ci` and `COOK_LOCKED` to `cook_locked`.
pub fn enforce_lock_policy(cfg: &CookConfig, ci: Option<&str>, cook_locked: Option<&str>) -> (r:
    LockAction)
    ensures
        r == lock_action(
            *cfg,
            match ci {
                Some(v) => Some(v@),
                None => None,
            },
            match cook_locked {
                Some(v) => Some(v@),
                None => None,
            },
        ),
{
    if switched_on(cook_locked) || (switched_on(ci) && cfg.build.strict_lock_in_ci) {
        LockAction::RequireMatch
    } else if cfg.resolver.write_lockfile {
        LockAction::Write
    } else {
        LockAction::Leave
    }
}

/// What is known so far of a project that is being locked.
#[derive(Debug)]
pub struct LockReplies {
    pub project: ProjectReplies,
    /// Whether the lockfile could be written.
    pub written: Option<Result<(), Failure>>,
}

/// What to do next to lock a project.
#[derive(Debug)]
pub enum LockStep {
    /// Find out more of the project.
    Project(ProjectStep),
    /// Write the lockfile.
    WriteLock { path: String, lock: CookLock },
    /// The project is locked, which the user is told, or cannot be.
    Finished(Result<String, Failure>),
}

/// The model of a [`LockStep`].
#[verifier::ext_equal]
pub enum LockStepView {
    Project(project::ProjectStepView),
    WriteLock { path: Seq<char>, lock: lockfile::LockView },
    Locked(Seq<char>),
    Failed(Seq<char>),
}

impl View for LockStep {
    type V = LockStepView;

    open spec fn view(&self) -> LockStepView {
        match self {
            LockStep::Project(step) => LockStepView::Project(step@),
            LockStep::WriteLock { path, lock } => LockStepView::WriteLock {
                path: path@,
                lock: lock@,
            },
            LockStep::Finished(Ok(message)) => LockStepView::Locked(message@),
            LockStep::Finished(Err(failure)) => LockStepView::Failed(failure@),
        }
    }
}

/// What to do next to lock a project.
pub open spec fn lock_step(replies: LockReplies, windows: bool) -> LockStepView {
    match project::project_step(seq![".cook/deps"@], replies.project, windows) {
        Err(project::ProjectStepView::Failed(message)) => LockStepView::Failed(message),
        Err(step) => LockStepView::Project(step),
        Ok(resolution) => match replies.written {
            None => LockStepView::WriteLock {
                path: "cook.lock"@,
                lock: lockfile::lock_of(resolution),
            },
            Some(Err(failure)) => LockStepView::Failed(failure@),
            Some(Ok(_)) => LockStepView::Locked("lockfile updated at cook.lock"@),
        },
    }
}

impl LockReplies {
    /// Nothing is known yet.
    pub fn new() -> (r: Self)
        ensures
            r.project.config is None,
            r.project.directories is None,
            r.project.manifest is None,
            r.project.findings.manifests@.len() == 0,
            r.project.findings.sights@.len() == 0,
            r.project.findings.checkouts@.len() == 0,
            r.written is None,
    {
        LockReplies { project: ProjectReplies::new(), written: None }
    }
}

/// What to do next to lock a project, on a system whose paths follow the rules of
/// Windows or not.
pub fn lock_project(replies: &LockReplies, windows: bool) -> (r: LockStep)
    ensures
        r@ == lock_step(*replies, windows),
{
    let mut needed: Vec<String> = Vec::new();
    text::push_text(&mut needed, ".cook/deps");
    assert(text::texts(needed@) =~= seq![".cook/deps"@]);
    match project::resolve_project(needed, &replies.project, windows) {
        Err(ProjectStep::Failed(failure)) => LockStep::Finished(Err(failure)),
        Err(step) => LockStep::Project(step),
        Ok(resolution) => match &replies.written {
            None => LockStep::WriteLock {
                path: "cook.lock".to_owned(),
                lock: CookLock::from_resolution(&resolution),
            },
            Some(Err(failure)) => LockStep::Finished(Err(failure.copied())),
            Some(Ok(_)) => LockStep::Finished(Ok("lockfile updated at cook.lock".to_owned())),
        },
    }
}

// ---------------------------------------------------------------------------
// Cleaning
// ---------------------------------------------------------------------------

/// What to do to clean a project.
#[derive(Debug)]
pub struct CleanPlan {
    /// The directory to remove, if there is one.
    pub remove: Option<String>,
    /// What the user is told when that is done.
    pub message: String,
}

/// What to do to clean a project whose `target` directory is there or not.
pub fn clean_project(target_present: bool) -> (r: CleanPlan)
    ensures
        text::opt_text(r.remove) == (if target_present {
            Some("target"@)
        } else {
            None
        }),
        r.message@ == (if target_present {
            "removed build artifacts at target/"@
        } else {
            "nothing to clean (target/ does not exist)"@
        }),
{
    if target_present {
        CleanPlan {
            remove: Some("target".to_owned()),
            message: "removed build artifacts at target/".to_owned(),
        }
    } else {
        CleanPlan {
            remove: None,
            message: "nothing to clean (target/ does not exist)".to_owned(),
        }
    }
}

// ---------------------------------------------------------------------------
// Planning a build
// ---------------------------------------------------------------------------

/// The profile of a build.
pub open spec fn profile_for(release: bool) -> BuildProfile {
    if release {
        BuildProfile::Release
    } else {
        BuildProfile::Debug
    }
}

/// The profile of a build.
pub fn profile_from_release(release: bool) -> (r: BuildProfile)
    ensures
        r == profile_for(release),
{
    if release {
        BuildProfile::Release
    } else {
        BuildProfile::Debug
    }
}

/// The compile parameters of a profile.
pub open spec fn params_for(cfg: CookConfig, profile: BuildProfile) -> BuildCompileParams {
    match profile {
        BuildProfile::Debug => cfg.build.flags.debug,
        BuildProfile::Release => cfg.build.flags.release,
    }
}

/// The plan of a build.
pub open spec fn planned(
    cfg: CookConfig,
    profile: BuildProfile,
    sources: Seq<Seq<char>>,
    dependencies: Seq<packages::DependencyView>,
    windows: bool,
) -> backends::PlanView {
    let params = params_for(cfg, profile);
    backends::PlanView {
        project_name: cfg.project.name@,
        cpp_standard: cfg.project.cpp_standard@,
        compiler: cfg.build.compiler,
        profile,
        build_threads: cfg.build.threads as nat,
        optimization: params.optimization,
        fast_math: params.fast_math,
        c_flags: text::texts(params.c_flags@),
        cxx_flags: text::texts(params.cxx_flags@),
        target_dir: "target"@,
        sources,
        dependencies,
        windows,
    }
}

/// The directories that a build needs.
pub open spec fn needed_dirs(profile: BuildProfile, windows: bool) -> Seq<Seq<char>> {
    seq![
        ".cook/deps"@,
        "target"@,
        paths::path_join(windows, "target"@, backends::profile_name(profile)),
        "target/.cook-cache"@,
    ]
}

/// The directories that a build needs.
pub fn build_directories(profile: BuildProfile, windows: bool) -> (r: Vec<String>)
    ensures
        text::texts(r@) == needed_dirs(profile, windows),
{
    let mut out: Vec<String> = Vec::new();
    text::push_text(&mut out, ".cook/deps");
    text::push_text(&mut out, "target");
    text::push_text(&mut out, paths::join(windows, "target", profile.as_str()).as_str());
    text::push_text(&mut out, "target/.cook-cache");
    assert(text::texts(out@) =~= needed_dirs(profile, windows));
    out
}

/// What the user is told of a resolution, if it found any dependency.
pub open spec fn resolution_note(resolution: packages::ResolutionView) -> Option<Seq<char>> {
    if resolution.build_order.len() == 0 {
        None
    } else {
        Some(
            "resolved "@ + text::decimal(resolution.build_order.len())
                + " transitive package(s)"@,
        )
    }
}

/// What the user is told of a resolution.
pub fn describe_resolution(resolution: &ResolutionResult) -> (r: Option<String>)
    ensures
        text::opt_text(r) == resolution_note(resolution@),
{
    let count = resolution.build_order.len();
    assert(resolution@.build_order.len() == count);
    if count == 0 {
        return None;
    }
    let mut out = "resolved ".to_owned();
    out.append(text::to_decimal(count as u64).as_str());
    out.append(" transitive package(s)");
    Some(out)
}

/// The plan of a build of the given sources and dependencies.
pub fn plan_build(
    cfg: &CookConfig,
    profile: BuildProfile,
    sources: Vec<String>,
    dependencies: Vec<ResolvedDependency>,
    windows: bool,
) -> (r: Result<BuildPlan, Failure>)
    ensures
        sources@.len() == 0 ==> r is Err && r->Err_0@
            == "no C/C++ source files found under src/"@,
        sources@.len() > 0 ==> r is Ok && r->Ok_0@ == planned(
            *cfg,
            profile,
            text::texts(sources@),
            packages::dependency_views(dependencies@),
            windows,
        ),
{
    if sources.len() == 0 {
        return Err(Failure::new("no C/C++ source files found under src/".to_owned()));
    }
    let params = match profile {
        BuildProfile::Debug => cfg.build.flags.debug.clone(),
        BuildProfile::Release => cfg.build.flags.release.clone(),
    };
    Ok(
        BuildPlan {
            project_name: cfg.project.name.clone(),
            cpp_standard: cfg.project.cpp_standard.clone(),
            compiler: cfg.build.compiler,
            profile,
            build_threads: cfg.build.threads,
            compile_params: params,
            target_dir: "target".to_owned(),
            sources,
            dependencies,
            windows,
        },
    )
}

// ---------------------------------------------------------------------------
// Preparing a build
// ---------------------------------------------------------------------------

/// All that a build does, before any of it is done.
#[derive(Debug)]
pub struct PreparedBuild {
    pub backend_id: String,
    /// Where the build file goes.
    pub manifest_path: String,
    /// The directory that has to be there for it.
    pub manifest_dir: Option<String>,
    /// The build file.
    pub manifest: String,
    /// Where the fingerprint of the build is kept.
    pub cache_key_path: String,
    /// Where the program may be found.
    pub artifacts: Vec<String>,
    /// How to configure and build.
    pub commands: Vec<CommandSpec>,
}

/// The model of a [`PreparedBuild`].
#[verifier::ext_equal]
pub struct PreparedView {
    pub backend_id: Seq<char>,
    pub manifest_path: Seq<char>,
    pub manifest_dir: Option<Seq<char>>,
    pub manifest: Seq<char>,
    pub cache_key_path: Seq<char>,
    pub artifacts: Seq<Seq<char>>,
    pub commands: Seq<backends::CommandView>,
}

impl View for PreparedBuild {
    type V = PreparedView;

    open spec fn view(&self) -> PreparedView {
        PreparedView {
            backend_id: self.backend_id@,
            manifest_path: self.manifest_path@,
            manifest_dir: text::opt_text(self.manifest_dir),
            manifest: self.manifest@,
            cache_key_path: self.cache_key_path@,
            artifacts: text::texts(self.artifacts@),
            commands: backends::command_views(self.commands@),
        }
    }
}

/// The directory of a file, if it is not the current one.
pub open spec fn dir_to_create(windows: bool, path: Seq<char>) -> Option<Seq<char>> {
    match paths::parent(windows, path) {
        Some(dir) => if dir.len() == 0 {
            None
        } else {
            Some(dir)
        },
        None => None,
    }
}

/// Where the fingerprint of a build is kept.
pub open spec fn key_path(profile: BuildProfile, windows: bool) -> Seq<char> {
    paths::path_join(
        windows,
        "target/.cook-cache"@,
        "build-"@ + backends::profile_name(profile) + ".fingerprint"@,
    )
}

/// All that a build with `backend` does.
pub open spec fn prepared_with<B: BuildBackend>(
    backend: B,
    plan: backends::PlanView,
    working_dir: Option<Seq<char>>,
) -> PreparedView {
    PreparedView {
        backend_id: backend.id_text(),
        manifest_path: backend.manifest_text(plan),
        manifest_dir: dir_to_create(plan.windows, backend.manifest_text(plan)),
        manifest: backend.rendered(plan, working_dir),
        cache_key_path: key_path(plan.profile, plan.windows),
        artifacts: backend.artifacts(plan),
        commands: backend.configuring(plan) + backend.building(plan),
    }
}

/// All that a build does.
pub open spec fn preparation(
    kind: config::BuildBackend,
    plan: backends::PlanView,
    working_dir: Option<Seq<char>>,
) -> PreparedView {
    match kind {
        config::BuildBackend::Cmake => prepared_with(CmakeBackend, plan, working_dir),
        config::BuildBackend::Make => prepared_with(MakeBackend, plan, working_dir),
    }
}

fn prepare_with<B: BuildBackend>(
    backend: &B,
    plan: &BuildPlan,
    working_dir: Option<&str>,
) -> (r: Result<PreparedBuild, Failure>)
    ensures
        plan@.sources.len() == 0 ==> r is Err && r->Err_0@
            == "no source files were discovered under src/"@,
        plan@.sources.len() > 0 ==> r is Ok && r->Ok_0@ == prepared_with(
            *backend,
            plan@,
            match working_dir {
                Some(dir) => Some(dir@),
                None => None,
            },
        ),
{
    let manifest = match backend.render(plan, working_dir) {
        Ok(manifest) => manifest,
        Err(failure) => {
            return Err(failure);
        },
    };
    let manifest_path = backend.manifest_path(plan);
    let manifest_dir = match paths::parent_of(plan.windows, manifest_path.as_str()) {
        Some(dir) => if dir.as_str().is_empty() {
            None
        } else {
            Some(dir)
        },
        None => None,
    };
    let mut key_file = "build-".to_owned();
    key_file.append(plan.profile.as_str());
    key_file.append(".fingerprint");
    let configure = backend.configure_steps(plan);
    let build = backend.build_steps(plan);
    let commands = joined_commands(configure, build);
    Ok(
        PreparedBuild {
            backend_id: backend.backend_id().to_owned(),
            manifest_path,
            manifest_dir,
            manifest,
            cache_key_path: paths::join(plan.windows, "target/.cook-cache", key_file.as_str()),
            artifacts: backend.artifact_candidates(plan),
            commands,
        },
    )
}

fn joined_commands(first: Vec<CommandSpec>, second: Vec<CommandSpec>) -> (r: Vec<CommandSpec>)
    ensures
        backends::command_views(r@) == backends::command_views(first@) + backends::command_views(
            second@,
        ),
{
    let ghost a = backends::command_views(first@);
    let ghost b = backends::command_views(second@);
    let mut out = first;
    let mut rest = second;
    out.append(&mut rest);
    assert(backends::command_views(out@) =~= a + b);
    out
}

/// All that a build does, for a project in the directory `working_dir`.
pub fn prepare_build(
    kind: config::BuildBackend,
    plan: &BuildPlan,
    working_dir: Option<&str>,
) -> (r: Result<PreparedBuild, Failure>)
    ensures
        plan@.sources.len() == 0 ==> r is Err && r->Err_0@
            == "no source files were discovered under src/"@,
        plan@.sources.len() > 0 ==> r is Ok && r->Ok_0@ == preparation(
            kind,
            plan@,
            match working_dir {
                Some(dir) => Some(dir@),
                None => None,
            },
        ),
{
    match kind {
        config::BuildBackend::Cmake => prepare_with(&CmakeBackend, plan, working_dir),
        config::BuildBackend::Make => prepare_with(&MakeBackend, plan, working_dir),
    }
}

// ---------------------------------------------------------------------------
// Carrying out a build
// ---------------------------------------------------------------------------

/// Where a build takes place.
#[derive(Debug)]
pub struct Surroundings {
    /// What the environment sets `CI` to.
    pub ci: Option<String>,
    /// What the environment sets `COOK_LOCKED` to.
    pub cook_locked: Option<String>,
    /// The current directory, if it is known.
    pub working_dir: Option<String>,
    /// Whether the system is Windows.
    pub windows: bool,
}

/// What is known of a build so far.
#[derive(Debug)]
pub struct BuildReplies {
    pub project: ProjectReplies,
    /// The user has been told how many packages there are.
    pub resolution_told: bool,
    /// The lockfile on disk, if there is one, or why it cannot be read.
    pub lock_found: Option<Option<Result<CookLock, Failure>>>,
    /// Whether the lockfile could be written.
    pub lock_written: Option<Result<(), Failure>>,
    /// What is known of the dependencies, one by one.
    pub externals: Vec<ExternalReplies>,
    /// The files under `src`.
    pub files: Option<Vec<String>>,
    /// Whether the build file could be written.
    pub manifest_written: Option<Result<(), Failure>>,
    /// The lockfile as text.
    pub lock_rendered: Option<Result<String, Failure>>,
    /// What is known of the source files.
    pub facts: Option<OrderedMap<SourceFacts>>,
    /// The fingerprint on disk, if there is one, or why it cannot be read.
    pub stored_key: Option<Result<Option<String>, Failure>>,
    /// Which of the places for the program held it before the build.
    pub present_before: Option<Vec<bool>>,
    /// The user has been told that nothing has to be built.
    pub hit_told: bool,
    /// What came of the commands that have been run.
    pub ran: Vec<ProgramOutcome>,
    /// Whether the fingerprint has been written.
    pub key_written: Option<Result<(), Failure>>,
    /// Which of the places for the program hold it after the build.
    pub present_after: Option<Vec<bool>>,
}

/// What to do next about a build.
#[derive(Debug)]
pub enum BuildStep {
    /// Find out more of the project.
    Project(ProjectStep),
    /// Tell the user how many packages there are.
    TellResolution(String),
    /// Read the lockfile.
    ReadLock(String),
    /// Write the lockfile.
    WriteLock { path: String, lock: CookLock },
    /// Do something for the dependency with this number.
    External { index: usize, step: ExternalStep },
    /// List the files under this directory.
    ListFiles(String),
    /// Write the build file, in a directory that may have to be created.
    WriteBuildFile { dir: Option<String>, path: String, content: String },
    /// Turn the lockfile into text.
    RenderLock(CookLock),
    /// See the size and age of these files.
    MeasureSources(Vec<String>),
    /// Read the fingerprint on disk.
    ReadKey(String),
    /// See which of these places hold the program.
    LookBefore(Vec<String>),
    /// Tell the user that nothing has to be built.
    TellHit(String),
    /// Run this command.
    Run(CommandSpec),
    /// Write the fingerprint.
    WriteKey { path: String, key: String },
    /// See which of these places hold the program now.
    LookAfter(Vec<String>),
    /// The program is here, or the build has failed.
    Finished(Result<String, Failure>),
}

/// The model of a [`BuildStep`].
#[verifier::ext_equal]
pub enum BuildStepView {
    Project(project::ProjectStepView),
    TellResolution(Seq<char>),
    ReadLock(Seq<char>),
    WriteLock { path: Seq<char>, lock: lockfile::LockView },
    External { index: int, step: externals::ExternalStepView },
    ListFiles(Seq<char>),
    WriteBuildFile { dir: Option<Seq<char>>, path: Seq<char>, content: Seq<char> },
    RenderLock(lockfile::LockView),
    MeasureSources(Seq<Seq<char>>),
    ReadKey(Seq<char>),
    LookBefore(Seq<Seq<char>>),
    TellHit(Seq<char>),
    Run(backends::CommandView),
    WriteKey { path: Seq<char>, key: Seq<char> },
    LookAfter(Seq<Seq<char>>),
    Built(Seq<char>),
    Failed(Seq<char>),
}

impl View for BuildStep {
    type V = BuildStepView;

    open spec fn view(&self) -> BuildStepView {
        match self {
            BuildStep::Project(step) => BuildStepView::Project(step@),
            BuildStep::TellResolution(message) => BuildStepView::TellResolution(message@),
            BuildStep::ReadLock(path) => BuildStepView::ReadLock(path@),
            BuildStep::WriteLock { path, lock } => BuildStepView::WriteLock {
                path: path@,
                lock: lock@,
            },
            BuildStep::External { index, step } => BuildStepView::External {
                index: *index as int,
                step: step@,
            },
            BuildStep::ListFiles(dir) => BuildStepView::ListFiles(dir@),
            BuildStep::WriteBuildFile { dir, path, content } => BuildStepView::WriteBuildFile {
                dir: text::opt_text(*dir),
                path: path@,
                content: content@,
            },
            BuildStep::RenderLock(lock) => BuildStepView::RenderLock(lock@),
            BuildStep::MeasureSources(list) => BuildStepView::MeasureSources(text::texts(list@)),
            BuildStep::ReadKey(path) => BuildStepView::ReadKey(path@),
            BuildStep::LookBefore(list) => BuildStepView::LookBefore(text::texts(list@)),
            BuildStep::TellHit(message) => BuildStepView::TellHit(message@),
            BuildStep::Run(command) => BuildStepView::Run(command@),
            BuildStep::WriteKey { path, key } => BuildStepView::WriteKey {
                path: path@,
                key: key@,
            },
            BuildStep::LookAfter(list) => BuildStepView::LookAfter(text::texts(list@)),
            BuildStep::Finished(Ok(path)) => BuildStepView::Built(path@),
            BuildStep::Finished(Err(failure)) => BuildStepView::Failed(failure@),
        }
    }
}

/// What becomes of the lockfile, as a step; none when that is settled.
pub open spec fn locking(
    cfg: CookConfig,
    around: Surroundings,
    lock: lockfile::LockView,
    replies: BuildReplies,
) -> Option<BuildStepView> {
    match lock_action(cfg, text::opt_text(around.ci), text::opt_text(around.cook_locked)) {
        LockAction::RequireMatch => match replies.lock_found {
            None => Some(BuildStepView::ReadLock("cook.lock"@)),
            Some(found) => match lockfile::lock_complaint(lock, "cook.lock"@, found) {
                Some(message) => Some(BuildStepView::Failed(message)),
                None => None,
            },
        },
        LockAction::Write => match replies.lock_written {
            None => Some(BuildStepView::WriteLock { path: "cook.lock"@, lock }),
            Some(Err(failure)) => Some(BuildStepView::Failed(failure@)),
            Some(Ok(_)) => None,
        },
        LockAction::Leave => None,
    }
}

/// The plan of a build, or what to do next to make it.
pub open spec fn planning(
    profile: BuildProfile,
    around: Surroundings,
    cfg: CookConfig,
    resolution: packages::ResolutionView,
    replies: BuildReplies,
) -> Result<backends::PlanView, BuildStepView> {
    if resolution_note(resolution) is Some && !replies.resolution_told {
        Err(BuildStepView::TellResolution(resolution_note(resolution)->0))
    } else if locking(cfg, around, lockfile::lock_of(resolution), replies) is Some {
        Err(locking(cfg, around, lockfile::lock_of(resolution), replies)->0)
    } else {
        match externals::externals_step(
            resolution.direct_dependencies,
            profile,
            cfg.build.compiler,
            around.windows,
            replies.externals@,
        ) {
            Err((index, externals::ExternalStepView::Failed(message))) => Err(
                BuildStepView::Failed(message),
            ),
            Err((index, step)) => Err(BuildStepView::External { index, step }),
            Ok(ready) => match replies.files {
                None => Err(BuildStepView::ListFiles("src"@)),
                Some(files) => {
                    let sources = scanner::sources_of(around.windows, text::texts(files@));
                    if sources.len() == 0 {
                        Err(BuildStepView::Failed("no C/C++ source files found under src/"@))
                    } else {
                        Ok(planned(cfg, profile, sources, ready, around.windows))
                    }
                },
            },
        }
    }
}

/// A build whose commands and fingerprint are known.
#[verifier::ext_equal]
pub struct ReadyView {
    pub project_name: Seq<char>,
    pub prepared: PreparedView,
    pub key: Seq<char>,
}

/// A planned build made ready, or what to do next for that.
pub open spec fn readying(
    around: Surroundings,
    cfg: CookConfig,
    plan: backends::PlanView,
    lock: lockfile::LockView,
    replies: BuildReplies,
) -> Result<ReadyView, BuildStepView> {
    let prepared = preparation(cfg.build.backend, plan, text::opt_text(around.working_dir));
    match replies.manifest_written {
        None => Err(
            BuildStepView::WriteBuildFile {
                dir: prepared.manifest_dir,
                path: prepared.manifest_path,
                content: prepared.manifest,
            },
        ),
        Some(Err(failure)) => Err(BuildStepView::Failed(failure@)),
        Some(Ok(_)) => match replies.lock_rendered {
            None => Err(BuildStepView::RenderLock(lock)),
            Some(Err(failure)) => Err(BuildStepView::Failed(failure@)),
            Some(Ok(rendered)) => match replies.facts {
                None => Err(BuildStepView::MeasureSources(plan.sources)),
                Some(facts) => Ok(
                    ReadyView {
                        project_name: plan.project_name,
                        prepared,
                        key: digest::text_digest(
                            cache::fingerprint_text(
                                plan,
                                prepared.backend_id,
                                rendered@,
                                facts@,
                            ),
                        ),
                    },
                ),
            },
        },
    }
}

/// A build made ready, or what to do next for that.
pub open spec fn ready(profile: BuildProfile, around: Surroundings, replies: BuildReplies) -> Result<
    ReadyView,
    BuildStepView,
> {
    match project::project_step(
        needed_dirs(profile, around.windows),
        replies.project,
        around.windows,
    ) {
        Err(project::ProjectStepView::Failed(message)) => Err(BuildStepView::Failed(message)),
        Err(step) => Err(BuildStepView::Project(step)),
        Ok(resolution) => {
            let cfg = replies.project.config->0->Ok_0;
            match planning(profile, around, cfg, resolution, replies) {
                Err(step) => Err(step),
                Ok(plan) => readying(around, cfg, plan, lockfile::lock_of(resolution), replies),
            }
        },
    }
}

/// The first of `paths` that is present.
pub open spec fn first_existing(list: Seq<Seq<char>>, present: Seq<bool>) -> Option<Seq<char>>
    decreases list.len(),
{
    if list.len() == 0 || present.len() == 0 {
        None
    } else if present[0] {
        Some(list[0])
    } else {
        first_existing(list.drop_first(), present.drop_first())
    }
}

/// The complaint about a build that left no program.
pub open spec fn no_artifact(profile: BuildProfile, project: Seq<char>) -> Seq<char> {
    "build finished but no artifact was found in target/"@ + backends::profile_name(profile)
        + " for project '"@ + project + "'"@
}

/// The fingerprint on disk is the expected one.
pub open spec fn key_matches(stored: Option<Seq<char>>, key: Seq<char>) -> bool {
    stored is Some && text::trimmed(stored->0) == key
}

/// What to do next when the build is not left out.
pub open spec fn build_onward(
    build: ReadyView,
    profile: BuildProfile,
    replies: BuildReplies,
) -> BuildStepView {
    match programs::progress(build.prepared.commands, replies.ran@) {
        programs::ProgressView::Run(i) => BuildStepView::Run(build.prepared.commands[i]),
        programs::ProgressView::Failed(message) => BuildStepView::Failed(message),
        programs::ProgressView::Done => match replies.key_written {
            None => BuildStepView::WriteKey {
                path: build.prepared.cache_key_path,
                key: build.key,
            },
            Some(Err(failure)) => BuildStepView::Failed(failure@),
            Some(Ok(_)) => match replies.present_after {
                None => BuildStepView::LookAfter(build.prepared.artifacts),
                Some(present) => match first_existing(build.prepared.artifacts, present@) {
                    Some(path) => BuildStepView::Built(path),
                    None => BuildStepView::Failed(no_artifact(profile, build.project_name)),
                },
            },
        },
    }
}

/// What to do next about a build that is ready.
pub open spec fn ready_step(
    build: ReadyView,
    profile: BuildProfile,
    replies: BuildReplies,
) -> BuildStepView {
    match replies.stored_key {
        None => BuildStepView::ReadKey(build.prepared.cache_key_path),
        Some(Err(failure)) => BuildStepView::Failed(failure@),
        Some(Ok(stored)) => if !key_matches(text::opt_text(stored), build.key) {
            build_onward(build, profile, replies)
        } else {
            match replies.present_before {
                None => BuildStepView::LookBefore(build.prepared.artifacts),
                Some(present) => {
                    let found = first_existing(build.prepared.artifacts, present@);
                    if !cache::is_hit(text::opt_text(stored), build.key, present@)
                        || found is None {
                        build_onward(build, profile, replies)
                    } else if !replies.hit_told {
                        BuildStepView::TellHit("build cache hit, artifact is up-to-date"@)
                    } else {
                        BuildStepView::Built(found->0)
                    }
                },
            }
        },
    }
}

/// What to do next about a build.
pub open spec fn build_step(
    profile: BuildProfile,
    around: Surroundings,
    replies: BuildReplies,
) -> BuildStepView {
    match ready(profile, around, replies) {
        Err(step) => step,
        Ok(build) => ready_step(build, profile, replies),
    }
}

proof fn lemma_first_existing(list: Seq<Seq<char>>, present: Seq<bool>)
    requires
        list.len() == present.len(),
    ensures
        present.contains(true) <==> first_existing(list, present) is Some,
        first_existing(list, present) matches Some(path) ==> exists|i: int|
            0 <= i < list.len() && present[i] && #[trigger] list[i] == path,
    decreases list.len(),
{
    if list.len() > 0 && !present[0] {
        let rest = present.drop_first();
        lemma_first_existing(list.drop_first(), rest);
        if present.contains(true) {
            let i = choose|i: int| 0 <= i < present.len() && present[i] == true;
            assert(rest[i - 1] == true);
        }
        if rest.contains(true) {
            let i = choose|i: int| 0 <= i < rest.len() && rest[i] == true;
            assert(present[i + 1] == true);
        }
        if let Some(path) = first_existing(list, present) {
            let i = choose|i: int|
                0 <= i < list.drop_first().len() && rest[i] && #[trigger] list.drop_first()[i]
                    == path;
            assert(list[i + 1] == path && present[i + 1]);
        }
    } else if list.len() > 0 {
        assert(present[0] == true);
        assert(list[0] == first_existing(list, present)->0);
    }
}

/// A build that has to match the lockfile gets past it only where the lockfile
/// on disk says what the resolution says, and never writes it.
pub proof fn locked_build_matches_the_lockfile(
    profile: BuildProfile,
    around: Surroundings,
    cfg: CookConfig,
    resolution: packages::ResolutionView,
    replies: BuildReplies,
)
    requires
        lock_action(cfg, text::opt_text(around.ci), text::opt_text(around.cook_locked))
            == LockAction::RequireMatch,
    ensures
        planning(profile, around, cfg, resolution, replies) is Ok || planning(
            profile,
            around,
            cfg,
            resolution,
            replies,
        )->Err_0 is External || planning(profile, around, cfg, resolution, replies)->Err_0
            is ListFiles ==> {
            &&& replies.lock_found matches Some(Some(Ok(lock)))
            &&& lock@ == lockfile::lock_of(resolution)
        },
        !(planning(profile, around, cfg, resolution, replies) matches Err(
            BuildStepView::WriteLock { .. },
        )),
{
}

/// Nothing is run for the project, and neither its build file nor its
/// fingerprint is written, before all of its packages are known and its
/// lockfile is settled.
pub proof fn building_follows_locking(
    profile: BuildProfile,
    around: Surroundings,
    replies: BuildReplies,
)
    requires
        ({
            let step = build_step(profile, around, replies);
            step is Run || step is WriteBuildFile || step is WriteKey || step is Built
        }),
    ensures
        project::project_step(
            needed_dirs(profile, around.windows),
            replies.project,
            around.windows,
        ) matches Ok(resolution) && locking(
            replies.project.config->0->Ok_0,
            around,
            lockfile::lock_of(resolution),
            replies,
        ) is None,
{
}

/// A build whose fingerprint is on disk and whose program is there runs nothing:
/// it ends with that program once the user has been told.
pub proof fn unchanged_build_runs_nothing(
    profile: BuildProfile,
    around: Surroundings,
    replies: BuildReplies,
    stored: Option<String>,
    present: Vec<bool>,
)
    requires
        ready(profile, around, replies) is Ok,
        replies.stored_key == Some(Ok::<Option<String>, Failure>(stored)),
        key_matches(text::opt_text(stored), ready(profile, around, replies)->Ok_0.key),
        replies.present_before == Some(present),
        present@.len() == ready(profile, around, replies)->Ok_0.prepared.artifacts.len(),
        present@.contains(true),
    ensures
        build_step(profile, around, replies) is TellHit || build_step(profile, around, replies)
            is Built,
        replies.hit_told ==> build_step(profile, around, replies) is Built,
{
    lemma_first_existing(ready(profile, around, replies)->Ok_0.prepared.artifacts, present@);
}

/// A build that does not find its own fingerprint on disk runs its first command.
pub proof fn changed_build_runs(
    profile: BuildProfile,
    around: Surroundings,
    replies: BuildReplies,
    stored: Option<String>,
)
    requires
        ready(profile, around, replies) is Ok,
        replies.stored_key == Some(Ok::<Option<String>, Failure>(stored)),
        !key_matches(text::opt_text(stored), ready(profile, around, replies)->Ok_0.key),
        replies.ran@.len() == 0,
    ensures
        build_step(profile, around, replies) == BuildStepView::Run(
            ready(profile, around, replies)->Ok_0.prepared.commands[0],
        ),
{
    let build = ready(profile, around, replies)->Ok_0;
    assert(build.prepared.commands.len() > 0);
    assert(programs::successes(replies.ran@) == 0);
}

/// The fingerprint of a build is written only after all of its commands have succeeded.
pub proof fn key_is_written_after_success(
    profile: BuildProfile,
    around: Surroundings,
    replies: BuildReplies,
)
    requires
        build_step(profile, around, replies) is WriteKey,
    ensures
        ready(profile, around, replies) matches Ok(build) && {
            &&& replies.ran@.len() >= build.prepared.commands.len()
            &&& forall|i: int|
                0 <= i < build.prepared.commands.len() ==> programs::succeeded(
                    #[trigger] replies.ran@[i],
                )
        },
{
    let build = ready(profile, around, replies)->Ok_0;
    programs::commands_run_in_order(build.prepared.commands, replies.ran@);
}

/// The fingerprint that a build writes is the one that the same build looks for.
#[verifier::rlimit(30)]
pub proof fn written_key_is_looked_for(
    profile: BuildProfile,
    around: Surroundings,
    replies: BuildReplies,
    key: Seq<char>,
)
    requires
        build_step(profile, around, replies) matches BuildStepView::WriteKey { key: written, .. }
            && written == key,
        text::trimmed(key) == key,
    ensures
        key_matches(Some(key), ready(profile, around, replies)->Ok_0.key),
{
}

/// The program that a build ends with is at one of the places for it, and is there.
#[verifier::rlimit(30)]
pub proof fn built_program_is_present(
    profile: BuildProfile,
    around: Surroundings,
    replies: BuildReplies,
    path: Seq<char>,
)
    requires
        build_step(profile, around, replies) == BuildStepView::Built(path),
        ({
            let places = ready(profile, around, replies)->Ok_0.prepared.artifacts;
            &&& replies.present_before matches Some(present) ==> present@.len() == places.len()
            &&& replies.present_after matches Some(present) ==> present@.len() == places.len()
        }),
    ensures
        ({
            let places = ready(profile, around, replies)->Ok_0.prepared.artifacts;
            exists|i: int|
                0 <= i < places.len() && #[trigger] places[i] == path && ((
                replies.present_before is Some && replies.present_before->0@[i]) || (
                replies.present_after is Some && replies.present_after->0@[i]))
        }),
{
    let places = ready(profile, around, replies)->Ok_0.prepared.artifacts;
    if let Some(present) = replies.present_before {
        lemma_first_existing(places, present@);
    }
    if let Some(present) = replies.present_after {
        lemma_first_existing(places, present@);
    }
}

/// What a step asks for is not known yet.
pub open spec fn is_open(step: BuildStepView, replies: BuildReplies) -> bool {
    match step {
        BuildStepView::Project(asked) => project::is_open(asked, replies.project),
        BuildStepView::TellResolution(_) => !replies.resolution_told,
        BuildStepView::ReadLock(_) => replies.lock_found is None,
        BuildStepView::WriteLock { .. } => replies.lock_written is None,
        BuildStepView::External { index, step: asked } => externals::is_open(
            asked,
            externals::replies_for(replies.externals@, index),
        ),
        BuildStepView::ListFiles(_) => replies.files is None,
        BuildStepView::WriteBuildFile { .. } => replies.manifest_written is None,
        BuildStepView::RenderLock(_) => replies.lock_rendered is None,
        BuildStepView::MeasureSources(_) => replies.facts is None,
        BuildStepView::ReadKey(_) => replies.stored_key is None,
        BuildStepView::LookBefore(_) => replies.present_before is None,
        BuildStepView::TellHit(_) => !replies.hit_told,
        BuildStepView::Run(_) => programs::successes(replies.ran@) == replies.ran@.len(),
        BuildStepView::WriteKey { .. } => replies.key_written is None,
        BuildStepView::LookAfter(_) => replies.present_after is None,
        BuildStepView::Built(_) | BuildStepView::Failed(_) => true,
    }
}

proof fn lemma_planning_asks(
    profile: BuildProfile,
    around: Surroundings,
    cfg: CookConfig,
    resolution: packages::ResolutionView,
    replies: BuildReplies,
)
    ensures
        planning(profile, around, cfg, resolution, replies) matches Err(step) ==> is_open(
            step,
            replies,
        ),
{
    externals::dependencies_are_readied_in_order(
        resolution.direct_dependencies,
        profile,
        cfg.build.compiler,
        around.windows,
        replies.externals@,
    );
}

proof fn lemma_readying_asks(
    around: Surroundings,
    cfg: CookConfig,
    plan: backends::PlanView,
    lock: lockfile::LockView,
    replies: BuildReplies,
)
    ensures
        readying(around, cfg, plan, lock, replies) matches Err(step) ==> is_open(step, replies),
{
}

proof fn lemma_ready_asks(profile: BuildProfile, around: Surroundings, replies: BuildReplies)
    ensures
        ready(profile, around, replies) matches Err(step) ==> is_open(step, replies),
{
    project::project_asks_for_what_is_missing(
        needed_dirs(profile, around.windows),
        replies.project,
        around.windows,
    );
    if let Ok(resolution) = project::project_step(
        needed_dirs(profile, around.windows),
        replies.project,
        around.windows,
    ) {
        let cfg = replies.project.config->0->Ok_0;
        lemma_planning_asks(profile, around, cfg, resolution, replies);
        if let Ok(plan) = planning(profile, around, cfg, resolution, replies) {
            lemma_readying_asks(around, cfg, plan, lockfile::lock_of(resolution), replies);
        }
    }
}

proof fn lemma_ready_step_asks(build: ReadyView, profile: BuildProfile, replies: BuildReplies)
    ensures
        is_open(ready_step(build, profile, replies), replies),
{
    programs::lemma_successes(replies.ran@);
}

/// Only what is not known yet is asked for, and no command is run before those
/// before it have succeeded.
pub proof fn build_asks_for_what_is_missing(
    profile: BuildProfile,
    around: Surroundings,
    replies: BuildReplies,
)
    ensures
        is_open(build_step(profile, around, replies), replies),
{
    lemma_ready_asks(profile, around, replies);
    if let Ok(build) = ready(profile, around, replies) {
        lemma_ready_step_asks(build, profile, replies);
    }
}

/// The first of the given paths that is present.
pub fn first_existing_path(list: &Vec<String>, present: &Vec<bool>) -> (r: Option<String>)
    ensures
        text::opt_text(r) == first_existing(text::texts(list@), present@),
{
    let ghost all = text::texts(list@);
    let ghost seen = present@;
    let mut i: usize = 0;
    assert(all.skip(0) == all);
    assert(seen.skip(0) == seen);
    while i < list.len() && i < present.len()
        invariant
            i <= list@.len(),
            i <= present@.len(),
            all == text::texts(list@),
            seen == present@,
            first_existing(all, seen) == first_existing(all.skip(i as int), seen.skip(i as int)),
        decreases list.len() - i,
    {
        assert(all.skip(i as int).drop_first() == all.skip(i + 1));
        assert(seen.skip(i as int).drop_first() == seen.skip(i + 1));
        if present[i] {
            assert(all.skip(i as int)[0] == list@[i as int]@);
            return Some(list[i].clone());
        }
        i += 1;
    }
    None
}

impl BuildReplies {
    /// Nothing has been done yet.
    pub fn new() -> (r: Self)
        ensures
            r.project.config is None,
            r.project.directories is None,
            r.project.manifest is None,
            r.project.findings.manifests@.len() == 0,
            r.project.findings.sights@.len() == 0,
            r.project.findings.checkouts@.len() == 0,
            !r.resolution_told,
            r.lock_found is None,
            r.lock_written is None,
            r.externals@.len() == 0,
            r.files is None,
            r.manifest_written is None,
            r.lock_rendered is None,
            r.facts is None,
            r.stored_key is None,
            r.present_before is None,
            !r.hit_told,
            r.ran@.len() == 0,
            r.key_written is None,
            r.present_after is None,
    {
        BuildReplies {
            project: ProjectReplies::new(),
            resolution_told: false,
            lock_found: None,
            lock_written: None,
            externals: Vec::new(),
            files: None,
            manifest_written: None,
            lock_rendered: None,
            facts: None,
            stored_key: None,
            present_before: None,
            hit_told: false,
            ran: Vec::new(),
            key_written: None,
            present_after: None,
        }
    }
}

fn settle_lock(
    cfg: &CookConfig,
    around: &Surroundings,
    resolution: &ResolutionResult,
    replies: &BuildReplies,
) -> (r: Option<BuildStep>)
    ensures
        (match r {
            Some(step) => Some(step@),
            None => None,
        }) == locking(*cfg, *around, lockfile::lock_of(resolution@), *replies),
{
    let ci = text::opt_str(&around.ci);
    let cook_locked = text::opt_str(&around.cook_locked);
    match enforce_lock_policy(cfg, ci, cook_locked) {
        LockAction::RequireMatch => match &replies.lock_found {
            None => Some(BuildStep::ReadLock("cook.lock".to_owned())),
            Some(found) => {
                let lock = CookLock::from_resolution(resolution);
                let existing = match found {
                    Some(existing) => Some(existing),
                    None => None,
                };
                match lock.ensure_matches_file("cook.lock", existing) {
                    Ok(_) => None,
                    Err(failure) => Some(BuildStep::Finished(Err(failure))),
                }
            },
        },
        LockAction::Write => match &replies.lock_written {
            None => Some(
                BuildStep::WriteLock {
                    path: "cook.lock".to_owned(),
                    lock: CookLock::from_resolution(resolution),
                },
            ),
            Some(Err(failure)) => Some(BuildStep::Finished(Err(failure.copied()))),
            Some(Ok(_)) => None,
        },
        LockAction::Leave => None,
    }
}

fn make_plan(
    profile: BuildProfile,
    around: &Surroundings,
    cfg: &CookConfig,
    resolution: &ResolutionResult,
    replies: &BuildReplies,
) -> (r: Result<BuildPlan, BuildStep>)
    ensures
        match planning(profile, *around, *cfg, resolution@, *replies) {
            Ok(plan) => r is Ok && r->Ok_0@ == plan && plan.sources.len() > 0,
            Err(step) => r is Err && r->Err_0@ == step,
        },
{
    if let Some(note) = describe_resolution(resolution) {
        if !replies.resolution_told {
            return Err(BuildStep::TellResolution(note));
        }
    }
    if let Some(step) = settle_lock(cfg, around, resolution, replies) {
        return Err(step);
    }
    let dependencies = match externals::prepare_external_dependencies(
        &resolution.direct_dependencies,
        profile,
        cfg.build.compiler,
        around.windows,
        &replies.externals,
    ) {
        Err((index, step)) => {
            return Err(
                match step {
                    ExternalStep::Failed(failure) => BuildStep::Finished(Err(failure)),
                    other => BuildStep::External { index, step: other },
                },
            );
        },
        Ok(ready) => ready,
    };
    let sources = match &replies.files {
        None => {
            return Err(BuildStep::ListFiles("src".to_owned()));
        },
        Some(files) => scanner::discover_files(files, around.windows),
    };
    assert(text::texts(sources@).len() == sources@.len());
    match plan_build(cfg, profile, sources, dependencies, around.windows) {
        Ok(plan) => Ok(plan),
        Err(failure) => Err(BuildStep::Finished(Err(failure))),
    }
}

/// A build whose commands and fingerprint are known.
struct ReadyBuild {
    project_name: String,
    prepared: PreparedBuild,
    key: String,
}

impl View for ReadyBuild {
    type V = ReadyView;

    closed spec fn view(&self) -> ReadyView {
        ReadyView {
            project_name: self.project_name@,
            prepared: self.prepared@,
            key: self.key@,
        }
    }
}

#[verifier::rlimit(30)]
fn make_ready(
    around: &Surroundings,
    cfg: &CookConfig,
    plan: &BuildPlan,
    resolution: &ResolutionResult,
    replies: &BuildReplies,
) -> (r: Result<ReadyBuild, BuildStep>)
    requires
        plan@.sources.len() > 0,
    ensures
        match readying(*around, *cfg, plan@, lockfile::lock_of(resolution@), *replies) {
            Ok(build) => r is Ok && r->Ok_0@ == build && digest::is_digest(build.key)
                && text::trimmed(build.key) == build.key,
            Err(step) => r is Err && r->Err_0@ == step,
        },
{
    let working_dir = text::opt_str(&around.working_dir);
    let prepared = match prepare_build(cfg.build.backend, plan, working_dir) {
        Ok(prepared) => prepared,
        Err(failure) => {
            return Err(BuildStep::Finished(Err(failure)));
        },
    };
    match &replies.manifest_written {
        None => {
            return Err(
                BuildStep::WriteBuildFile {
                    dir: prepared.manifest_dir,
                    path: prepared.manifest_path,
                    content: prepared.manifest,
                },
            );
        },
        Some(Err(failure)) => {
            return Err(BuildStep::Finished(Err(failure.copied())));
        },
        Some(Ok(_)) => {},
    }
    let rendered = match &replies.lock_rendered {
        None => {
            return Err(BuildStep::RenderLock(CookLock::from_resolution(resolution)));
        },
        Some(Err(failure)) => {
            return Err(BuildStep::Finished(Err(failure.copied())));
        },
        Some(Ok(rendered)) => rendered,
    };
    match &replies.facts {
        None => Err(BuildStep::MeasureSources(text::copied_texts(&plan.sources))),
        Some(facts) => {
            let key = cache::compute_build_fingerprint(
                plan,
                prepared.backend_id.as_str(),
                rendered.as_str(),
                facts,
            );
            Ok(ReadyBuild { project_name: plan.project_name.clone(), prepared, key })
        },
    }
}

fn carry_on(build: &ReadyBuild, profile: BuildProfile, replies: &BuildReplies) -> (r: BuildStep)
    ensures
        r@ == build_onward(build@, profile, *replies),
{
    let prepared = &build.prepared;
    match programs::run_commands(&prepared.commands, &replies.ran) {
        CommandProgress::Run(i) => {
            assert(prepared@.commands[i as int] == prepared.commands@[i as int]@);
            BuildStep::Run(prepared.commands[i].copied())
        },
        CommandProgress::Failed(failure) => BuildStep::Finished(Err(failure)),
        CommandProgress::Done => match &replies.key_written {
            None => BuildStep::WriteKey {
                path: prepared.cache_key_path.clone(),
                key: build.key.clone(),
            },
            Some(Err(failure)) => BuildStep::Finished(Err(failure.copied())),
            Some(Ok(_)) => match &replies.present_after {
                None => BuildStep::LookAfter(text::copied_texts(&prepared.artifacts)),
                Some(present) => match first_existing_path(&prepared.artifacts, present) {
                    Some(path) => BuildStep::Finished(Ok(path)),
                    None => {
                        let mut message =
                            "build finished but no artifact was found in target/".to_owned();
                        message.append(profile.as_str());
                        message.append(" for project '");
                        message.append(build.project_name.as_str());
                        message.append("'");
                        BuildStep::Finished(Err(Failure::new(message)))
                    },
                },
            },
        },
    }
}

fn carry_out(build: &ReadyBuild, profile: BuildProfile, replies: &BuildReplies) -> (r: BuildStep)
    ensures
        r@ == ready_step(build@, profile, *replies),
{
    let stored = match &replies.stored_key {
        None => {
            return BuildStep::ReadKey(build.prepared.cache_key_path.clone());
        },
        Some(Err(failure)) => {
            return BuildStep::Finished(Err(failure.copied()));
        },
        Some(Ok(stored)) => stored,
    };
    let current = match stored {
        Some(s) => s.as_str(),
        None => {
            return carry_on(build, profile, replies);
        },
    };
    if !text::same_text(text::trim(current).as_str(), build.key.as_str()) {
        return carry_on(build, profile, replies);
    }
    match &replies.present_before {
        None => BuildStep::LookBefore(text::copied_texts(&build.prepared.artifacts)),
        Some(present) => {
            if cache::cache_hit(Some(current), build.key.as_str(), present) {
                if let Some(path) = first_existing_path(&build.prepared.artifacts, present) {
                    if !replies.hit_told {
                        return BuildStep::TellHit(
                            "build cache hit, artifact is up-to-date".to_owned(),
                        );
                    }
                    return BuildStep::Finished(Ok(path));
                }
            }
            carry_on(build, profile, replies)
        },
    }
}

fn get_ready(profile: BuildProfile, around: &Surroundings, replies: &BuildReplies) -> (r: Result<
    ReadyBuild,
    BuildStep,
>)
    ensures
        match ready(profile, *around, *replies) {
            Ok(build) => r is Ok && r->Ok_0@ == build && digest::is_digest(build.key)
                && text::trimmed(build.key) == build.key,
            Err(step) => r is Err && r->Err_0@ == step && !(step is WriteKey),
        },
{
    let resolution = match project::resolve_project(
        build_directories(profile, around.windows),
        &replies.project,
        around.windows,
    ) {
        Err(ProjectStep::Failed(failure)) => {
            return Err(BuildStep::Finished(Err(failure)));
        },
        Err(step) => {
            return Err(BuildStep::Project(step));
        },
        Ok(resolution) => resolution,
    };
    let cfg = match &replies.project.config {
        Some(Ok(cfg)) => cfg,
        _ => {
            return Err(BuildStep::Project(ProjectStep::LoadConfig("cook.toml".to_owned())));
        },
    };
    match make_plan(profile, around, cfg, &resolution, replies) {
        Ok(plan) => make_ready(around, cfg, &plan, &resolution, replies),
        Err(step) => Err(step),
    }
}

/// What to do next to build the project with a profile.
#[verifier::rlimit(30)]
pub fn build_project_with_profile(
    profile: BuildProfile,
    around: &Surroundings,
    replies: &BuildReplies,
) -> (r: BuildStep)
    ensures
        r@ == build_step(profile, *around, *replies),
        r@ matches BuildStepView::WriteKey { key, .. } ==> digest::is_digest(key) && text::trimmed(
            key,
        ) == key,
{
    match get_ready(profile, around, replies) {
        Ok(build) => carry_out(&build, profile, replies),
        Err(step) => step,
    }
}

/// What to do next to build the project, for release or not.
pub fn build_project(release: bool, around: &Surroundings, replies: &BuildReplies) -> (r: BuildStep)
    ensures
        r@ == build_step(profile_for(release), *around, *replies),
        r@ matches BuildStepView::WriteKey { key, .. } ==> digest::is_digest(key) && text::trimmed(
            key,
        ) == key,
{
    build_project_with_profile(profile_from_release(release), around, replies)
}

// ---------------------------------------------------------------------------
// Running the program
// ---------------------------------------------------------------------------

/// What to do next to build and run the project.
#[derive(Debug)]
pub enum RunStep {
    /// Go on with the build.
    Build(BuildStep),
    /// Run the program.
    Execute(String),
    /// The program has succeeded, or something has failed.
    Finished(Result<(), Failure>),
}

/// The model of a [`RunStep`].
#[verifier::ext_equal]
pub enum RunStepView {
    Build(BuildStepView),
    Execute(Seq<char>),
    Succeeded,
    Failed(Seq<char>),
}

impl View for RunStep {
    type V = RunStepView;

    open spec fn view(&self) -> RunStepView {
        match self {
            RunStep::Build(step) => RunStepView::Build(step@),
            RunStep::Execute(path) => RunStepView::Execute(path@),
            RunStep::Finished(Ok(_)) => RunStepView::Succeeded,
            RunStep::Finished(Err(failure)) => RunStepView::Failed(failure@),
        }
    }
}

/// The complaint about a program that was built and run.
pub open spec fn run_complaint(artifact: Seq<char>, outcome: ProgramOutcome) -> Option<Seq<char>> {
    match outcome {
        ProgramOutcome::NotStarted(_) => Some("failed to execute "@ + artifact),
        ProgramOutcome::Ended { success, status, output } => if success {
            None
        } else {
            Some("binary execution failed with status "@ + status@)
        },
    }
}

/// What to do next to build and run the project; `outcome` is what came of
/// running the program.
pub open spec fn run_step(
    profile: BuildProfile,
    around: Surroundings,
    replies: BuildReplies,
    outcome: Option<ProgramOutcome>,
) -> RunStepView {
    match build_step(profile, around, replies) {
        BuildStepView::Failed(message) => RunStepView::Failed(message),
        BuildStepView::Built(path) => match outcome {
            None => RunStepView::Execute(path),
            Some(ended) => match run_complaint(path, ended) {
                None => RunStepView::Succeeded,
                Some(message) => RunStepView::Failed(message),
            },
        },
        step => RunStepView::Build(step),
    }
}

/// Only a program that has been built is run.
pub proof fn only_built_programs_are_run(
    profile: BuildProfile,
    around: Surroundings,
    replies: BuildReplies,
    outcome: Option<ProgramOutcome>,
)
    ensures
        run_step(profile, around, replies, outcome) matches RunStepView::Execute(path)
            ==> build_step(profile, around, replies) == BuildStepView::Built(path),
        run_step(profile, around, replies, outcome) is Succeeded ==> build_step(
            profile,
            around,
            replies,
        ) is Built && outcome is Some && programs::succeeded(outcome->0),
{
}

/// What to do next to build and run the project; `outcome` is what came of
/// running the program.
pub fn run_project(
    release: bool,
    around: &Surroundings,
    replies: &BuildReplies,
    outcome: Option<&ProgramOutcome>,
) -> (r: RunStep)
    ensures
        r@ == run_step(
            profile_for(release),
            *around,
            *replies,
            match outcome {
                Some(ended) => Some(*ended),
                None => None,
            },
        ),
{
    let artifact = match build_project(release, around, replies) {
        BuildStep::Finished(Ok(path)) => path,
        BuildStep::Finished(Err(failure)) => {
            return RunStep::Finished(Err(failure));
        },
        step => {
            return RunStep::Build(step);
        },
    };
    match outcome {
        None => RunStep::Execute(artifact),
        Some(ProgramOutcome::NotStarted(_)) => {
            let mut message = "failed to execute ".to_owned();
            message.append(artifact.as_str());
            RunStep::Finished(Err(Failure::new(message)))
        },
        Some(ProgramOutcome::Ended { success, status, output: _ }) => if *success {
            RunStep::Finished(Ok(()))
        } else {
            let mut message = "binary execution failed with status ".to_owned();
            message.append(status.as_str());
            RunStep::Finished(Err(Failure::new(message)))
        },
    }
}

}
