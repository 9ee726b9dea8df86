use cook::builder::{
    build_project, clean_project, enforce_lock_policy, first_existing_path, lock_project,
    new_project, run_project, BuildReplies, BuildStep, LockAction, LockReplies, LockStep, RunStep,
    Surroundings,
};
use cook::cache::SourceFacts;
use cook::config::{
    AbiProfile, BuildBackend, BuildConfig, CookConfig, DependencyDetail, DependencySpec,
    DependencyVisibility, Project, ResolverConfig,
};
use cook::failure::Failure;
use cook::findings::{DirectoryFacts, Request, Sight};
use cook::lockfile::{CookLock, LockedSource};
use cook::ordered_map::OrderedMap;
use cook::packages::{
    ExternalBuildSystem, PackageSource, ResolutionResult, ResolvedEdge, ResolvedExports,
    ResolvedPackage,
};
use cook::programs::ProgramOutcome;
use cook::project::ProjectStep;

fn words(items: &[&str]) -> Vec<String> {
    items.iter().map(|s| s.to_string()).collect()
}

fn fail(message: &str) -> Failure {
    Failure::new(message.to_string())
}

fn config() -> CookConfig {
    CookConfig {
        project: Project {
            name: "app".to_string(),
            cpp_standard: "17".to_string(),
            abi: AbiProfile::default(),
        },
        build: BuildConfig::defaults(Some(2)),
        resolver: ResolverConfig::default(),
        dependencies: OrderedMap::new(),
    }
}

fn around() -> Surroundings {
    Surroundings {
        ci: None,
        cook_locked: None,
        working_dir: Some("/w".to_string()),
        windows: false,
    }
}

fn ended(success: bool) -> ProgramOutcome {
    ProgramOutcome::Ended {
        success,
        status: "exit status: 3".to_string(),
        output: String::new(),
    }
}

fn package(name: &str, root: &str, deps: &[&str]) -> ResolvedPackage {
    ResolvedPackage {
        name: name.to_string(),
        root_dir: root.to_string(),
        source: PackageSource::Path { manifest: format!("{root}/cook.toml") },
        dependencies: deps
            .iter()
            .map(|d| ResolvedEdge {
                name: d.to_string(),
                visibility: DependencyVisibility::Private,
            })
            .collect(),
        abi_fingerprint: format!("abi-{name}"),
        external_build_system: None,
        external_manifest_path: None,
        external_manifest_hash: None,
        exports: ResolvedExports::default(),
        build: Default::default(),
    }
}

fn resolution(packages: Vec<ResolvedPackage>) -> ResolutionResult {
    ResolutionResult { packages, direct_dependencies: Vec::new(), build_order: Vec::new() }
}

#[test]
fn new_projects_have_a_manifest_and_a_program() {
    let p = new_project("my app", false, false).unwrap();
    assert_eq!(p.source_dir, "my app/src");
    assert_eq!(p.manifest_path, "my app/cook.toml");
    assert_eq!(p.main_path, "my app/src/main.cpp");
    assert_eq!(
        p.manifest,
        r#"[project]
name = "my app"
cpp_standard = "17"

[build]
backend = "cmake"
compiler = "gcc"
strict_lock_in_ci = true
offline = false

[resolver]
write_lockfile = true

[project.abi]
# compiler = "clang"
# compiler_version = "18"
# arch = "x86_64"

[dependencies]
"#
    );
    assert_eq!(
        p.main,
        r#"#include <iostream>

int main() {
    std::cout << "Hello from Cook!" << std::endl;
    return 0;
}
"#
    );
}

#[test]
fn new_projects_need_a_name_and_room() {
    assert_eq!(new_project(" \t", true, false).unwrap_err().message, "project name cannot be empty");
    assert_eq!(
        new_project("a", true, false).unwrap_err().message,
        "target directory 'a' already exists and is not empty"
    );
}

#[test]
fn cleaning_removes_the_target_directory() {
    let plan = clean_project(true);
    assert_eq!(plan.remove, Some("target".to_string()));
    assert_eq!(plan.message, "removed build artifacts at target/");
    let plan = clean_project(false);
    assert_eq!(plan.remove, None);
    assert_eq!(plan.message, "nothing to clean (target/ does not exist)");
}

#[test]
fn lock_policy_follows_the_environment() {
    let mut cfg = config();
    assert_eq!(enforce_lock_policy(&cfg, None, None), LockAction::Write);
    assert_eq!(enforce_lock_policy(&cfg, Some("0"), Some("no")), LockAction::Write);
    for on in ["1", "true", "TRUE", "Yes"] {
        assert_eq!(enforce_lock_policy(&cfg, Some(on), None), LockAction::RequireMatch);
        assert_eq!(enforce_lock_policy(&cfg, None, Some(on)), LockAction::RequireMatch);
    }
    cfg.build.strict_lock_in_ci = false;
    assert_eq!(enforce_lock_policy(&cfg, Some("1"), None), LockAction::Write);
    assert_eq!(enforce_lock_policy(&cfg, Some("1"), Some("1")), LockAction::RequireMatch);
    cfg.resolver.write_lockfile = false;
    assert_eq!(enforce_lock_policy(&cfg, Some("1"), None), LockAction::Leave);
    assert_eq!(enforce_lock_policy(&cfg, None, Some(" 1")), LockAction::Leave);
}

#[test]
fn locks_are_sorted() {
    let mut ext = package("b", "/b1", &[]);
    ext.external_build_system = Some(ExternalBuildSystem::Make);
    ext.external_manifest_path = Some("/b1/Makefile".to_string());
    ext.external_manifest_hash = Some("h".to_string());
    ext.exports.libs = words(&["q"]);
    let mut root = package("z", "/z", &["b", "a", "B"]);
    root.source = PackageSource::Root;
    let lock = CookLock::from_resolution(&resolution(vec![
        root,
        package("b", "/b2", &[]),
        ext,
        package("a", "/a", &[]),
    ]));
    assert_eq!(lock.version, 1);
    let order: Vec<&str> = lock.packages.iter().map(|p| p.root_dir.as_str()).collect();
    assert_eq!(order, ["/a", "/b1", "/b2", "/z"]);
    let deps: Vec<&str> = lock.packages[3].dependencies.iter().map(|d| d.name.as_str()).collect();
    assert_eq!(deps, ["B", "a", "b"]);
    assert!(matches!(lock.packages[3].source, LockedSource::Root));
    assert_eq!(lock.packages[1].external_libs, words(&["q"]));
    assert_eq!(lock.packages[1].external_manifest_hash, Some("h".to_string()));
    assert_eq!(lock.packages[1].abi_fingerprint, "abi-b");
}

#[test]
fn locks_do_not_depend_on_the_order_of_discovery() {
    let a = CookLock::from_resolution(&resolution(vec![
        package("x", "/x", &["p", "q"]),
        package("y", "/y", &[]),
    ]));
    let b = CookLock::from_resolution(&resolution(vec![
        package("y", "/y", &[]),
        package("x", "/x", &["q", "p"]),
    ]));
    assert!(a.same(&b));
    let c = CookLock::from_resolution(&resolution(vec![package("y", "/y", &[])]));
    assert!(!a.same(&c));
}

#[test]
fn only_the_same_lock_is_accepted() {
    let lock = CookLock::from_resolution(&resolution(vec![package("x", "/x", &[])]));
    let same = Ok(CookLock::from_resolution(&resolution(vec![package("x", "/x", &[])])));
    let other = Ok(CookLock::from_resolution(&resolution(vec![package("x", "/w", &[])])));
    assert!(lock.ensure_matches_file("cook.lock", Some(&same)).is_ok());
    assert_eq!(
        lock.ensure_matches_file("cook.lock", Some(&other)).unwrap_err().message,
        "lockfile drift detected in cook.lock. Regenerate with 'cook lock' and commit the updated lockfile"
    );
    assert_eq!(
        lock.ensure_matches_file("cook.lock", None).unwrap_err().message,
        "lockfile is required but missing: cook.lock. Run 'cook lock' locally and commit the file"
    );
    let broken = Err(fail("failed to parse cook.lock"));
    assert_eq!(
        lock.ensure_matches_file("cook.lock", Some(&broken)).unwrap_err().message,
        "failed to parse cook.lock"
    );
}

#[test]
fn a_project_is_locked_step_by_step() {
    let mut seen = LockReplies::new();
    assert!(matches!(lock_project(&seen, false),
        LockStep::Project(ProjectStep::LoadConfig(p)) if p == "cook.toml"));
    seen.project.config = Some(Ok(config()));
    assert!(matches!(lock_project(&seen, false),
        LockStep::Project(ProjectStep::CreateDirectories(d)) if d == words(&[".cook/deps"])));
    seen.project.directories = Some(Ok(()));
    assert!(matches!(lock_project(&seen, false),
        LockStep::Project(ProjectStep::Locate(p)) if p == "cook.toml"));
    seen.project.manifest = Some(Ok("/w/cook.toml".to_string()));
    assert!(matches!(lock_project(&seen, false),
        LockStep::Project(ProjectStep::Find(Request::Manifest(p))) if p == "/w/cook.toml"));
    seen.project.findings.manifests.insert("/w/cook.toml".to_string(), Ok(config()));
    match lock_project(&seen, false) {
        LockStep::WriteLock { path, lock } => {
            assert_eq!(path, "cook.lock");
            assert_eq!(lock.packages.len(), 1);
        }
        other => panic!("unexpected {other:?}"),
    }
    seen.written = Some(Ok(()));
    assert!(matches!(lock_project(&seen, false),
        LockStep::Finished(Ok(m)) if m == "lockfile updated at cook.lock"));
    seen.written = Some(Err(fail("full")));
    assert!(matches!(lock_project(&seen, false), LockStep::Finished(Err(f)) if f.message == "full"));
    seen.project.config = Some(Err(fail("broken")));
    assert!(matches!(lock_project(&seen, false), LockStep::Finished(Err(f)) if f.message == "broken"));
}

/// All that is known once the packages of a project with one external dependency
/// are.
fn resolved() -> BuildReplies {
    let mut cfg = config();
    cfg.dependencies.insert("ext".to_string(), DependencySpec::Path("/ext".to_string()));
    let mut seen = BuildReplies::new();
    seen.project.config = Some(Ok(cfg.clone()));
    seen.project.directories = Some(Ok(()));
    seen.project.manifest = Some(Ok("/w/cook.toml".to_string()));
    seen.project.findings.manifests.insert("/w/cook.toml".to_string(), Ok(cfg));
    let mut sight = Sight::new();
    sight.directories.insert(
        "/ext".to_string(),
        Ok(DirectoryFacts {
            root: "/ext".to_string(),
            cook_manifest: None,
            cmake_lists: false,
            makefile: true,
            lower_makefile: false,
        }),
    );
    sight.files.insert("/ext/Makefile".to_string(), Ok(Vec::new()));
    seen.project.findings.sights.push(sight);
    seen
}

/// All that is known of a build without dependencies whose lockfile is left alone,
/// up to the fingerprint.
fn planned() -> BuildReplies {
    let mut cfg = config();
    cfg.resolver.write_lockfile = false;
    cfg.build.backend = BuildBackend::Make;
    let mut seen = BuildReplies::new();
    seen.project.config = Some(Ok(cfg.clone()));
    seen.project.directories = Some(Ok(()));
    seen.project.manifest = Some(Ok("/w/cook.toml".to_string()));
    seen.project.findings.manifests.insert("/w/cook.toml".to_string(), Ok(cfg));
    seen.files = Some(words(&["src/main.cpp", "src/readme.md"]));
    seen.manifest_written = Some(Ok(()));
    seen.lock_rendered = Some(Ok("version = 1\n".to_string()));
    let mut facts = OrderedMap::new();
    facts.insert("src/main.cpp".to_string(), SourceFacts { len: 1, modified: Some(2) });
    seen.facts = Some(facts);
    seen
}

fn failed(step: BuildStep) -> String {
    match step {
        BuildStep::Finished(Err(f)) => f.message,
        other => panic!("unexpected {other:?}"),
    }
}

#[test]
fn a_build_finds_and_locks_its_packages_first() {
    let mut seen = BuildReplies::new();
    assert!(matches!(build_project(true, &around(), &seen),
        BuildStep::Project(ProjectStep::LoadConfig(_))));
    seen.project.config = Some(Ok(config()));
    assert!(matches!(build_project(true, &around(), &seen),
        BuildStep::Project(ProjectStep::CreateDirectories(d))
            if d == words(&[".cook/deps", "target", "target/release", "target/.cook-cache"])));
    let mut seen = resolved();
    assert!(matches!(build_project(false, &around(), &seen),
        BuildStep::TellResolution(m) if m == "resolved 1 transitive package(s)"));
    seen.resolution_told = true;
    assert!(matches!(build_project(false, &around(), &seen),
        BuildStep::WriteLock { path, lock } if path == "cook.lock" && lock.packages.len() == 2));
    seen.lock_written = Some(Ok(()));
    assert!(matches!(build_project(false, &around(), &seen),
        BuildStep::External { index: 0, .. }));
}

#[test]
fn a_locked_build_stops_at_a_drifted_lockfile() {
    let mut strict = around();
    strict.ci = Some("true".to_string());
    let mut seen = resolved();
    seen.resolution_told = true;
    assert!(matches!(build_project(false, &strict, &seen),
        BuildStep::ReadLock(p) if p == "cook.lock"));
    seen.lock_found = Some(None);
    assert!(failed(build_project(false, &strict, &seen)).starts_with("lockfile is required"));
    seen.lock_found = Some(Some(Ok(CookLock { version: 1, packages: Vec::new() })));
    assert!(failed(build_project(false, &strict, &seen)).starts_with("lockfile drift detected"));
    seen.lock_written = None;
    let lock = match build_project(false, &around(), &seen) {
        BuildStep::WriteLock { lock, .. } => lock,
        other => panic!("unexpected {other:?}"),
    };
    seen.lock_found = Some(Some(Ok(lock)));
    assert!(matches!(build_project(false, &strict, &seen), BuildStep::External { .. }));
}

#[test]
fn a_build_needs_sources() {
    let mut seen = planned();
    seen.files = None;
    assert!(matches!(build_project(false, &around(), &seen),
        BuildStep::ListFiles(d) if d == "src"));
    seen.files = Some(words(&["src/readme.md"]));
    assert_eq!(
        failed(build_project(false, &around(), &seen)),
        "no C/C++ source files found under src/"
    );
}

#[test]
fn a_build_goes_on_step_by_step() {
    let mut seen = planned();
    seen.manifest_written = None;
    match build_project(false, &around(), &seen) {
        BuildStep::WriteBuildFile { dir, path, content } => {
            assert_eq!(dir, Some("target/debug".to_string()));
            assert_eq!(path, "target/debug/Makefile");
            assert!(content.starts_with("CC ?= gcc\n"));
        }
        other => panic!("unexpected {other:?}"),
    }
    seen.manifest_written = Some(Ok(()));
    seen.lock_rendered = None;
    assert!(matches!(build_project(false, &around(), &seen), BuildStep::RenderLock(_)));
    let mut seen = planned();
    let facts = seen.facts.take();
    assert!(matches!(build_project(false, &around(), &seen),
        BuildStep::MeasureSources(l) if l == words(&["src/main.cpp"])));
    seen.facts = facts;
    assert!(matches!(build_project(false, &around(), &seen),
        BuildStep::ReadKey(p) if p == "target/.cook-cache/build-debug.fingerprint"));
    seen.stored_key = Some(Ok(None));
    match build_project(false, &around(), &seen) {
        BuildStep::Run(c) => {
            assert_eq!(c.program, "make");
            assert_eq!(c.args, words(&["-f", "target/debug/Makefile", "-j2", "all"]));
        }
        other => panic!("unexpected {other:?}"),
    }
    seen.ran.push(ended(true));
    let key = match build_project(false, &around(), &seen) {
        BuildStep::WriteKey { path, key } => {
            assert_eq!(path, "target/.cook-cache/build-debug.fingerprint");
            key
        }
        other => panic!("unexpected {other:?}"),
    };
    seen.key_written = Some(Ok(()));
    assert!(matches!(build_project(false, &around(), &seen),
        BuildStep::LookAfter(l) if l == words(&["target/debug/app", "target/debug/app.exe"])));
    seen.present_after = Some(vec![false, true]);
    assert!(matches!(build_project(false, &around(), &seen),
        BuildStep::Finished(Ok(p)) if p == "target/debug/app.exe"));
    seen.present_after = Some(vec![false, false]);
    assert_eq!(
        failed(build_project(false, &around(), &seen)),
        "build finished but no artifact was found in target/debug for project 'app'"
    );

    let mut again = planned();
    again.stored_key = Some(Ok(Some(format!("{key}\n"))));
    assert!(matches!(build_project(false, &around(), &again), BuildStep::LookBefore(_)));
    again.present_before = Some(vec![true, false]);
    assert!(matches!(build_project(false, &around(), &again),
        BuildStep::TellHit(m) if m == "build cache hit, artifact is up-to-date"));
    again.hit_told = true;
    assert!(matches!(build_project(false, &around(), &again),
        BuildStep::Finished(Ok(p)) if p == "target/debug/app"));
    again.present_before = Some(vec![false, false]);
    assert!(matches!(build_project(false, &around(), &again), BuildStep::Run(_)));
    again.present_before = Some(vec![true, false]);
    let mut facts = OrderedMap::new();
    facts.insert("src/main.cpp".to_string(), SourceFacts { len: 9, modified: Some(2) });
    again.facts = Some(facts);
    assert!(matches!(build_project(false, &around(), &again), BuildStep::Run(_)));
}

#[test]
fn failures_end_a_build() {
    let mut seen = planned();
    seen.stored_key = Some(Err(fail("unreadable")));
    assert_eq!(failed(build_project(false, &around(), &seen)), "unreadable");
    seen.stored_key = Some(Ok(None));
    seen.ran.push(ended(false));
    assert_eq!(
        failed(build_project(false, &around(), &seen)),
        "command failed: make -f target/debug/Makefile -j2 all"
    );
    let mut seen = planned();
    seen.manifest_written = Some(Err(fail("read-only")));
    assert_eq!(failed(build_project(false, &around(), &seen)), "read-only");
    let mut seen = planned();
    seen.lock_rendered = Some(Err(fail("strange")));
    assert_eq!(failed(build_project(false, &around(), &seen)), "strange");
    let mut seen = planned();
    seen.stored_key = Some(Ok(None));
    seen.ran.push(ended(true));
    seen.key_written = Some(Err(fail("full")));
    assert_eq!(failed(build_project(false, &around(), &seen)), "full");
    let mut seen = planned();
    seen.project.manifest = Some(Err(fail("manifest not found: cook.toml")));
    assert_eq!(failed(build_project(false, &around(), &seen)), "manifest not found: cook.toml");
}

#[test]
fn a_program_is_run_once_it_is_built() {
    let mut seen = planned();
    assert!(matches!(run_project(true, &around(), &seen, None),
        RunStep::Build(BuildStep::ReadKey(_))));
    seen.stored_key = Some(Ok(None));
    seen.ran.push(ended(true));
    seen.key_written = Some(Ok(()));
    seen.present_after = Some(vec![true, false]);
    assert!(matches!(run_project(true, &around(), &seen, None),
        RunStep::Execute(p) if p == "target/release/app"));
    assert!(matches!(run_project(true, &around(), &seen, Some(&ended(true))),
        RunStep::Finished(Ok(()))));
    assert!(matches!(run_project(true, &around(), &seen, Some(&ended(false))),
        RunStep::Finished(Err(f))
            if f.message == "binary execution failed with status exit status: 3"));
    let missing = ProgramOutcome::NotStarted("x".to_string());
    assert!(matches!(run_project(true, &around(), &seen, Some(&missing)),
        RunStep::Finished(Err(f)) if f.message == "failed to execute target/release/app"));
    seen.ran = vec![ended(false)];
    assert!(matches!(run_project(true, &around(), &seen, None), RunStep::Finished(Err(_))));
}

#[test]
fn the_first_path_that_is_present_is_taken() {
    let list = words(&["a", "b"]);
    assert_eq!(first_existing_path(&list, &vec![true, true]), Some("a".to_string()));
    assert_eq!(first_existing_path(&list, &vec![false, true]), Some("b".to_string()));
    assert_eq!(first_existing_path(&list, &vec![false]), None);
}

#[test]
fn an_offline_project_asks_for_nothing_from_the_network() {
    let mut cfg = config();
    cfg.build.offline = true;
    let mut detail = DependencyDetail::default();
    detail.git = Some("https://h/x.git".to_string());
    detail.rev = Some("abc".to_string());
    cfg.dependencies.insert("x".to_string(), DependencySpec::Detailed(Box::new(detail)));
    let mut seen = LockReplies::new();
    seen.project.config = Some(Ok(cfg.clone()));
    seen.project.directories = Some(Ok(()));
    seen.project.manifest = Some(Ok("/w/cook.toml".to_string()));
    seen.project.findings.manifests.insert("/w/cook.toml".to_string(), Ok(cfg));
    match lock_project(&seen, false) {
        LockStep::Project(ProjectStep::Find(Request::Checkout { want, .. })) => {
            assert!(want.offline);
            assert_eq!(want.dir, "./.cook/deps/x");
        }
        other => panic!("unexpected {other:?}"),
    }
}

#[test]
fn a_new_project_follows_the_rules_of_windows() {
    let p = new_project("my app", false, true).unwrap();
    assert_eq!(p.source_dir, "my app\\src");
    assert_eq!(p.manifest_path, "my app\\cook.toml");
    assert_eq!(p.main_path, "my app\\src/main.cpp");
}

#[test]
fn locks_do_not_depend_on_the_order_of_dependencies() {
    let mut one = package("x", "/x", &["p", "q", "r"]);
    one.dependencies[1].visibility = DependencyVisibility::Public;
    let mut other = package("x", "/x", &["r", "q", "p"]);
    other.dependencies[1].visibility = DependencyVisibility::Public;
    let a = CookLock::from_resolution(&resolution(vec![package("y", "/y", &["x", "p"]), one]));
    let b = CookLock::from_resolution(&resolution(vec![other, package("y", "/y", &["p", "x"])]));
    assert!(a.same(&b));
    let c = CookLock::from_resolution(&resolution(vec![
        package("x", "/x", &["p", "q", "r"]),
        package("y", "/y", &["p", "x"]),
    ]));
    assert!(!a.same(&c));
}
