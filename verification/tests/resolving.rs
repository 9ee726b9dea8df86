use cook::checkout::{materialize_git_dependency, CheckoutReplies, CheckoutStep};
use cook::config::{
    AbiProfile, BuildConfig, CookConfig, DependencyDetail, DependencySpec, DependencyVisibility,
    Project, ResolverConfig,
};
use cook::failure::Failure;
use cook::findings::{
    check_directory, check_manifest, CheckedOut, CheckoutRequest, DirectoryFacts, Findings,
    Request, Sight, Stop,
};
use cook::ordered_map::OrderedMap;
use cook::packages::{ExternalBuildSystem, PackageSource, ResolutionResult};
use cook::programs::ProgramOutcome;
use cook::resolver::{resolve_from_manifest, resolve_export_lib, ResolveOptions};

fn config(name: &str, deps: Vec<(&str, DependencySpec)>) -> CookConfig {
    let mut dependencies = OrderedMap::new();
    for (alias, spec) in deps {
        dependencies.insert(alias.to_string(), spec);
    }
    CookConfig {
        project: Project {
            name: name.to_string(),
            cpp_standard: "17".to_string(),
            abi: AbiProfile::default(),
        },
        build: BuildConfig::defaults(Some(1)),
        resolver: ResolverConfig::default(),
        dependencies,
    }
}

fn path(p: &str) -> DependencySpec {
    DependencySpec::Path(p.to_string())
}

fn options() -> ResolveOptions {
    ResolveOptions { workspace_root: "/w".to_string(), offline: false }
}

/// What has been seen after `turn` checkouts.
fn sight(known: &mut Findings, turn: usize) -> &mut Sight {
    while known.sights.len() <= turn {
        known.sights.push(Sight::new());
    }
    &mut known.sights[turn]
}

fn add_manifest(known: &mut Findings, dir: &str, cfg: CookConfig) {
    known.manifests.insert(format!("{dir}/cook.toml"), Ok(cfg));
}

fn add_cook_dir(known: &mut Findings, seen_as: &str, dir: &str) {
    add_cook_dir_later(known, 0, seen_as, dir);
}

fn add_cook_dir_later(known: &mut Findings, turn: usize, seen_as: &str, dir: &str) {
    sight(known, turn).directories.insert(
        seen_as.to_string(),
        Ok(DirectoryFacts {
            root: dir.to_string(),
            cook_manifest: Some(format!("{dir}/cook.toml")),
            cmake_lists: false,
            makefile: false,
            lower_makefile: false,
        }),
    );
}

fn add_plain_dir(known: &mut Findings, seen_as: &str, dir: &str, cmake: bool, lower: bool) {
    add_plain_dir_later(known, 0, seen_as, dir, cmake, lower);
}

fn add_plain_dir_later(
    known: &mut Findings,
    turn: usize,
    seen_as: &str,
    dir: &str,
    cmake: bool,
    lower: bool,
) {
    sight(known, turn).directories.insert(
        seen_as.to_string(),
        Ok(DirectoryFacts {
            root: dir.to_string(),
            cook_manifest: None,
            cmake_lists: cmake,
            makefile: false,
            lower_makefile: lower,
        }),
    );
}

fn failure(r: Result<ResolutionResult, Stop>) -> String {
    match r {
        Err(Stop::Failed(f)) => f.message,
        other => panic!("unexpected {other:?}"),
    }
}

#[test]
fn options_have_defaults() {
    let o = ResolveOptions::default();
    assert_eq!(o.workspace_root, ".");
    assert!(!o.offline);
}

#[test]
fn the_resolver_asks_for_what_it_does_not_know() {
    let mut known = Findings::new();
    match resolve_from_manifest("/p/cook.toml", options(), &known, false) {
        Err(Stop::Need(Request::Manifest(m))) => assert_eq!(m, "/p/cook.toml"),
        other => panic!("unexpected {other:?}"),
    }
    add_manifest(&mut known, "/p", config("app", vec![("lib", path("../lib"))]));
    match resolve_from_manifest("/p/cook.toml", options(), &known, false) {
        Err(Stop::Need(Request::Directory { path, turn })) => {
            assert_eq!(path, "/p/../lib");
            assert_eq!(turn, 0);
        }
        other => panic!("unexpected {other:?}"),
    }
    add_plain_dir(&mut known, "/p/../lib", "/lib", true, false);
    match resolve_from_manifest("/p/cook.toml", options(), &known, false) {
        Err(Stop::Need(Request::File { path, turn })) => {
            assert_eq!(path, "/lib/CMakeLists.txt");
            assert_eq!(turn, 0);
        }
        other => panic!("unexpected {other:?}"),
    }
    sight(&mut known, 0).files.insert("/lib/CMakeLists.txt".to_string(), Ok(b"abc".to_vec()));
    let r = resolve_from_manifest("/p/cook.toml", options(), &known, false).unwrap();
    assert_eq!(r.build_order, vec!["lib".to_string()]);
    let dep = &r.direct_dependencies[0];
    assert_eq!(dep.external_build_system, Some(ExternalBuildSystem::Cmake));
    assert_eq!(dep.external_manifest_path, Some("/lib/CMakeLists.txt".to_string()));
    assert_eq!(
        dep.external_manifest_hash.as_deref(),
        Some("ba7816bf8f01cfea414140de5dae2223b00361a396177a9cb410ff61f20015ad")
    );
    assert_eq!(dep.visibility, DependencyVisibility::Private);
}

fn diamond() -> Findings {
    let mut known = Findings::new();
    add_manifest(&mut known, "/p", config("app", vec![("l", path("/l")), ("r", path("/r"))]));
    add_manifest(&mut known, "/l", config("left", vec![("b", path("/b"))]));
    add_manifest(&mut known, "/r", config("right", vec![("b", path("/b")), ("l", path("/l"))]));
    add_manifest(&mut known, "/b", config("base", vec![]));
    for d in ["/l", "/r", "/b"] {
        add_cook_dir(&mut known, d, d);
    }
    known
}

#[test]
fn dependencies_are_built_before_their_users() {
    let r = resolve_from_manifest("/p/cook.toml", options(), &diamond(), false).unwrap();
    assert_eq!(r.build_order, vec!["base".to_string(), "left".to_string(), "right".to_string()]);
    assert_eq!(r.packages.len(), r.build_order.len() + 1);
    let names: Vec<&str> = r.packages.iter().map(|p| p.name.as_str()).collect();
    assert_eq!(names, ["app", "left", "base", "right"]);
    assert_eq!(r.packages[0].source.clone_kind(), "root");
    assert!(matches!(&r.packages[1].source,
        PackageSource::Path { manifest } if manifest == "/l/cook.toml"));
    let right: Vec<&str> = r.packages[3].dependencies.iter().map(|e| e.name.as_str()).collect();
    assert_eq!(right, ["base", "left"]);
}

trait CloneKind {
    fn clone_kind(&self) -> &'static str;
}

impl CloneKind for PackageSource {
    fn clone_kind(&self) -> &'static str {
        match self {
            PackageSource::Root => "root",
            PackageSource::Path { .. } => "path",
            PackageSource::Git { .. } => "git",
        }
    }
}

#[test]
fn direct_dependencies_are_those_of_the_first_package() {
    let r = resolve_from_manifest("/p/cook.toml", options(), &diamond(), false).unwrap();
    let direct: Vec<&str> = r.direct_dependencies.iter().map(|d| d.name.as_str()).collect();
    let edges: Vec<&str> = r.packages[0].dependencies.iter().map(|e| e.name.as_str()).collect();
    assert_eq!(direct, edges);
}

#[test]
fn more_findings_do_not_change_a_result() {
    let first = resolve_from_manifest("/p/cook.toml", options(), &diamond(), false).unwrap();
    let mut more = diamond();
    add_manifest(&mut more, "/zzz", config("unused", vec![]));
    let second = resolve_from_manifest("/p/cook.toml", options(), &more, false).unwrap();
    assert_eq!(first.build_order, second.build_order);
    assert_eq!(first.packages.len(), second.packages.len());
}

#[test]
fn a_package_used_twice_under_two_names_is_one_edge() {
    let mut known = diamond();
    add_manifest(&mut known, "/p", config("app", vec![("x", path("/b")), ("y", path("/b"))]));
    let r = resolve_from_manifest("/p/cook.toml", options(), &known, false).unwrap();
    assert_eq!(r.packages[0].dependencies.len(), 1);
}

#[test]
fn cycles_are_reported_with_their_members() {
    let mut known = diamond();
    add_manifest(&mut known, "/b", config("base", vec![("l", path("/l"))]));
    assert_eq!(
        failure(resolve_from_manifest("/p/cook.toml", options(), &known, false)),
        "dependency cycle detected: l -> b -> l"
    );
}

#[test]
fn abi_conflicts_stop_the_resolution() {
    let mut known = diamond();
    let mut app = config("app", vec![("l", path("/l"))]);
    app.project.abi.compiler = Some("gcc".to_string());
    let mut left = config("left", vec![]);
    left.project.abi.compiler = Some("clang".to_string());
    add_manifest(&mut known, "/p", app);
    add_manifest(&mut known, "/l", left);
    assert_eq!(
        failure(resolve_from_manifest("/p/cook.toml", options(), &known, false)),
        "ABI incompatibility (parent-child) between 'app' and 'left': field 'compiler' differs (\"gcc\" != \"clang\")"
    );
}

#[test]
fn a_declaration_can_ask_for_a_profile() {
    let mut known = diamond();
    let mut detail = DependencyDetail::default();
    detail.path = Some("/l".to_string());
    detail.abi.arch = Some("arm".to_string());
    let app = config("app", vec![("alias", DependencySpec::Detailed(Box::new(detail)))]);
    let mut left = config("left", vec![]);
    left.project.abi.arch = Some("x86_64".to_string());
    add_manifest(&mut known, "/p", app);
    add_manifest(&mut known, "/l", left);
    assert_eq!(
        failure(resolve_from_manifest("/p/cook.toml", options(), &known, false)),
        "ABI incompatibility (dependency-constraint) between 'alias' and 'left': field 'arch' differs (\"arm\" != \"x86_64\")"
    );
}

#[test]
fn failures_to_look_are_passed_on() {
    let mut known = Findings::new();
    known.manifests.insert(
        "/p/cook.toml".to_string(),
        Err(Failure::new("failed to parse /p/cook.toml".to_string())),
    );
    assert_eq!(
        failure(resolve_from_manifest("/p/cook.toml", options(), &known, false)),
        "failed to parse /p/cook.toml"
    );
    assert_eq!(
        check_directory("/x", false, false).unwrap_err().message,
        "dependency directory not found: /x"
    );
    assert_eq!(
        check_directory("/x", true, false).unwrap_err().message,
        "dependency path is not a directory: /x"
    );
    assert!(check_directory("/x", true, true).is_ok());
    assert_eq!(check_manifest("m", false).unwrap_err().message, "manifest not found: m");
    assert!(check_manifest("m", true).is_ok());
}

#[test]
fn a_directory_with_nothing_to_build_is_an_error() {
    let mut known = Findings::new();
    add_manifest(&mut known, "/p", config("app", vec![("lib", path("/lib"))]));
    add_plain_dir(&mut known, "/lib", "/lib", false, false);
    assert_eq!(
        failure(resolve_from_manifest("/p/cook.toml", options(), &known, false)),
        "dependency 'lib' has no cook.toml and no supported external build file (CMakeLists.txt or Makefile) in /lib"
    );
}

#[test]
fn a_lower_case_makefile_is_found() {
    let mut known = Findings::new();
    add_manifest(&mut known, "/p", config("app", vec![("lib", path("/lib"))]));
    add_plain_dir(&mut known, "/lib", "/lib", false, true);
    sight(&mut known, 0).files.insert("/lib/makefile".to_string(), Ok(Vec::new()));
    let r = resolve_from_manifest("/p/cook.toml", options(), &known, false).unwrap();
    assert_eq!(r.packages[1].external_build_system, Some(ExternalBuildSystem::Make));
    assert_eq!(ExternalBuildSystem::Make.as_str(), "make");
    assert_eq!(ExternalBuildSystem::Cmake.as_str(), "cmake");
}

#[test]
fn exports_become_full_paths() {
    let mut known = Findings::new();
    let mut detail = DependencyDetail::default();
    detail.path = Some("/lib".to_string());
    detail.export.include_dirs = vec!["inc".to_string(), "/abs".to_string()];
    detail.export.lib_dirs = vec!["out\\x".to_string()];
    detail.export.libs = vec!["z".to_string(), "./libq.a".to_string(), "/k/l.so".to_string()];
    add_manifest(
        &mut known,
        "/p",
        config("app", vec![("lib", DependencySpec::Detailed(Box::new(detail)))]),
    );
    add_plain_dir(&mut known, "/lib", "/lib", true, false);
    sight(&mut known, 0).files.insert("/lib/CMakeLists.txt".to_string(), Ok(Vec::new()));
    let r = resolve_from_manifest("/p/cook.toml", options(), &known, false).unwrap();
    let e = &r.packages[1].exports;
    assert_eq!(e.include_dirs, vec!["/lib/inc".to_string(), "/abs".to_string()]);
    assert_eq!(e.lib_dirs, vec!["/lib/out/x".to_string()]);
    assert_eq!(
        e.libs,
        vec!["z".to_string(), "/lib/./libq.a".to_string(), "/k/l.so".to_string()]
    );
    assert_eq!(resolve_export_lib("/r", "a\\b", false), "/r/a/b");
}

#[test]
fn two_declarations_of_one_external_source_must_agree() {
    let mut known = Findings::new();
    let mut a = DependencyDetail::default();
    a.path = Some("/lib".to_string());
    let mut b = a.clone();
    b.build.build_args = vec!["-v".to_string()];
    add_manifest(
        &mut known,
        "/p",
        config(
            "app",
            vec![
                ("a", DependencySpec::Detailed(Box::new(a))),
                ("b", DependencySpec::Detailed(Box::new(b))),
            ],
        ),
    );
    add_plain_dir(&mut known, "/lib", "/lib", true, false);
    sight(&mut known, 0).files.insert("/lib/CMakeLists.txt".to_string(), Ok(Vec::new()));
    assert_eq!(
        failure(resolve_from_manifest("/p/cook.toml", options(), &known, false)),
        "dependency 'b' declares conflicting build metadata for external source /lib"
    );
}

fn git(url: &str, rev: Option<&str>) -> DependencySpec {
    let mut detail = DependencyDetail::default();
    detail.git = Some(url.to_string());
    detail.rev = rev.map(|r| r.to_string());
    detail.tag = Some("v1".to_string());
    DependencySpec::Detailed(Box::new(detail))
}

fn checked_out(cook_manifest: Option<&str>) -> CheckedOut {
    CheckedOut {
        rev: "abcdef".to_string(),
        directory: Ok(DirectoryFacts {
            root: "/w/.cook/deps/g".to_string(),
            cook_manifest: cook_manifest.map(|m| m.to_string()),
            cmake_lists: false,
            makefile: false,
            lower_makefile: false,
        }),
    }
}

#[test]
fn repositories_need_a_url_and_a_revision() {
    let mut known = Findings::new();
    add_manifest(&mut known, "/p", config("app", vec![("g", git("  ", Some("abc")))]));
    assert_eq!(
        failure(resolve_from_manifest("/p/cook.toml", options(), &known, false)),
        "dependency 'g' defines git source with empty URL"
    );
    add_manifest(&mut known, "/p", config("app", vec![("g", git("u", None))]));
    assert_eq!(
        failure(resolve_from_manifest("/p/cook.toml", options(), &known, false)),
        "dependency 'g' uses git source without 'rev'. Pin a commit SHA for reproducible builds"
    );
}

#[test]
fn repositories_are_checked_out_under_the_workspace() {
    let mut known = Findings::new();
    add_manifest(&mut known, "/p", config("app", vec![("g", git("u", Some("abc")))]));
    let want = match resolve_from_manifest("/p/cook.toml", options(), &known, false) {
        Err(Stop::Need(Request::Checkout { want, .. })) => want,
        other => panic!("unexpected {other:?}"),
    };
    assert_eq!(want.dir, "/w/.cook/deps/g");
    assert_eq!(want.rev, "abc");
    assert_eq!(want.tag, Some("v1".to_string()));
    assert!(!want.offline);
    known.checkouts.push((want, Ok(checked_out(Some("/w/.cook/deps/g/cook.toml")))));
    add_manifest(&mut known, "/w/.cook/deps/g", config("gee", vec![]));
    let r = resolve_from_manifest("/p/cook.toml", options(), &known, false).unwrap();
    assert!(matches!(&r.packages[1].source,
        PackageSource::Git { url, requested_rev, resolved_rev }
            if url == "u" && requested_rev == "abc" && resolved_rev == "abcdef"));
}

#[test]
fn a_repository_with_nothing_to_build_is_an_error() {
    let mut known = Findings::new();
    add_manifest(&mut known, "/p", config("app", vec![("g", git("u", Some("abc")))]));
    let want = match resolve_from_manifest("/p/cook.toml", options(), &known, false) {
        Err(Stop::Need(Request::Checkout { want, .. })) => want,
        other => panic!("unexpected {other:?}"),
    };
    known.checkouts.push((want, Ok(checked_out(None))));
    assert_eq!(
        failure(resolve_from_manifest("/p/cook.toml", options(), &known, false)),
        "dependency 'g' from git 'u' has no cook.toml and no supported external build file (CMakeLists.txt or Makefile)"
    );
}

fn request(offline: bool, tag: Option<&str>) -> CheckoutRequest {
    CheckoutRequest {
        dir: "/w/d".to_string(),
        url: "u".to_string(),
        rev: "abc".to_string(),
        branch: Some("dev".to_string()),
        tag: tag.map(|t| t.to_string()),
        offline,
        windows: false,
    }
}

fn ended(success: bool, output: &str) -> ProgramOutcome {
    ProgramOutcome::Ended {
        success,
        status: "exit status: 128".to_string(),
        output: output.to_string(),
    }
}

fn words(items: &[&str]) -> Vec<String> {
    items.iter().map(|s| s.to_string()).collect()
}

fn end(step: CheckoutStep) -> Result<String, String> {
    match step {
        CheckoutStep::Finished(Ok(rev)) => Ok(rev),
        CheckoutStep::Finished(Err(f)) => Err(f.message),
        other => panic!("unexpected {other:?}"),
    }
}

#[test]
fn a_checkout_goes_step_by_step() {
    let want = request(false, Some("v1"));
    let mut seen = CheckoutReplies::new();
    assert!(matches!(materialize_git_dependency(&want, &seen),
        CheckoutStep::LookForDirectory(d) if d == "/w/d"));
    seen.directory_present = Some(false);
    assert!(matches!(materialize_git_dependency(&want, &seen),
        CheckoutStep::CreateParent(d) if d == "/w"));
    seen.parent_created = Some(Ok(()));
    let clone = words(&["clone", "u", "--branch", "dev", "/w/d"]);
    assert!(matches!(materialize_git_dependency(&want, &seen),
        CheckoutStep::Obtain { repo: None, args } if args == clone));
    seen.obtained.push(ended(false, ""));
    assert!(matches!(materialize_git_dependency(&want, &seen), CheckoutStep::Obtain { .. }));
    seen.obtained.push(ended(true, ""));
    assert!(matches!(materialize_git_dependency(&want, &seen),
        CheckoutStep::LookForRepository(d) if d == "/w/d/.git"));
    seen.repository_present = Some(true);
    assert!(matches!(materialize_git_dependency(&want, &seen),
        CheckoutStep::Switch(args) if args == words(&["checkout", "--force", "abc"])));
    seen.switched = Some(ended(true, ""));
    assert!(matches!(materialize_git_dependency(&want, &seen),
        CheckoutStep::ReadHead(args) if args == words(&["rev-parse", "HEAD"])));
    seen.head = Some(ended(true, "abcdef\n"));
    assert!(matches!(materialize_git_dependency(&want, &seen),
        CheckoutStep::ReadTag(args) if args == words(&["rev-list", "-n", "1", "v1"])));
    seen.tagged = Some(ended(true, "abcdef\n"));
    assert_eq!(end(materialize_git_dependency(&want, &seen)), Ok("abcdef".to_string()));
}

#[test]
fn an_existing_checkout_is_fetched_unless_offline() {
    let mut seen = CheckoutReplies::new();
    seen.directory_present = Some(true);
    assert!(matches!(materialize_git_dependency(&request(false, None), &seen),
        CheckoutStep::Obtain { repo: Some(d), args }
            if d == "/w/d" && args == words(&["fetch", "--all", "--tags"])));
    assert!(matches!(materialize_git_dependency(&request(true, None), &seen),
        CheckoutStep::LookForRepository(_)));
    seen.directory_present = Some(false);
    assert_eq!(
        end(materialize_git_dependency(&request(true, None), &seen)),
        Err("offline mode is enabled and dependency checkout is missing: /w/d".to_string())
    );
}

#[test]
fn cloning_is_given_up_after_the_second_failure() {
    let mut seen = CheckoutReplies::new();
    seen.directory_present = Some(false);
    seen.parent_created = Some(Ok(()));
    seen.obtained.push(ended(false, ""));
    seen.obtained.push(ended(false, ""));
    assert_eq!(
        end(materialize_git_dependency(&request(false, None), &seen)),
        Err("git clone u --branch dev /w/d failed with status exit status: 128".to_string())
    );
    seen.obtained.push(ProgramOutcome::NotStarted("no such file".to_string()));
    assert_eq!(
        end(materialize_git_dependency(&request(false, None), &seen)),
        Err("no such file".to_string())
    );
    seen.parent_created = Some(Err(Failure::new("denied".to_string())));
    assert_eq!(
        end(materialize_git_dependency(&request(false, None), &seen)),
        Err("denied".to_string())
    );
}

fn ready() -> CheckoutReplies {
    let mut seen = CheckoutReplies::new();
    seen.directory_present = Some(true);
    seen.repository_present = Some(true);
    seen
}

#[test]
fn troubles_with_the_revision_are_told() {
    let want = request(true, Some("v1"));
    let mut seen = ready();
    seen.repository_present = Some(false);
    assert_eq!(
        end(materialize_git_dependency(&want, &seen)),
        Err("dependency checkout is not a git repository: /w/d".to_string())
    );
    let mut seen = ready();
    seen.switched = Some(ended(false, ""));
    assert_eq!(
        end(materialize_git_dependency(&want, &seen)),
        Err("git -C /w/d checkout --force abc failed with status exit status: 128".to_string())
    );
    seen.switched = Some(ProgramOutcome::NotStarted("x".to_string()));
    assert_eq!(
        end(materialize_git_dependency(&want, &seen)),
        Err("failed to run git -C /w/d checkout --force abc".to_string())
    );
    seen.switched = Some(ended(true, ""));
    seen.head = Some(ended(true, "  \n"));
    assert_eq!(
        end(materialize_git_dependency(&want, &seen)),
        Err("git command produced empty output: git -C /w/d rev-parse HEAD".to_string())
    );
    seen.head = Some(ended(true, "123"));
    assert_eq!(
        end(materialize_git_dependency(&want, &seen)),
        Err("git checkout verification failed for /w/d: requested abc, got 123".to_string())
    );
    seen.head = Some(ended(true, "abc1"));
    seen.tagged = Some(ended(true, "abc2"));
    assert_eq!(
        end(materialize_git_dependency(&want, &seen)),
        Err("tag 'v1' does not match resolved revision 'abc1' for /w/d".to_string())
    );
}

#[test]
fn every_revision_is_checked_out_by_itself() {
    let mut known = Findings::new();
    add_manifest(
        &mut known,
        "/p",
        config("app", vec![("g", git("u", Some("abc"))), ("l", path("/l"))]),
    );
    add_manifest(&mut known, "/l", config("left", vec![("g", git("u", Some("abd")))]));
    add_cook_dir_later(&mut known, 1, "/l", "/l");
    add_manifest(&mut known, "/w/.cook/deps/g", config("gee", vec![]));
    let mut revs = Vec::new();
    while let Err(Stop::Need(Request::Checkout { want, .. })) =
        resolve_from_manifest("/p/cook.toml", options(), &known, false)
    {
        revs.push(want.rev.clone());
        known.checkouts.push((want, Ok(checked_out(Some("/w/.cook/deps/g/cook.toml")))));
    }
    assert_eq!(revs, ["abc", "abd"]);
    let r = resolve_from_manifest("/p/cook.toml", options(), &known, false).unwrap();
    assert_eq!(r.build_order, vec!["gee".to_string(), "left".to_string()]);
}

#[test]
fn every_use_is_checked_out_again() {
    let mut known = Findings::new();
    add_manifest(
        &mut known,
        "/p",
        config("app", vec![("g", git("u", Some("A"))), ("l", path("/l")), ("r", path("/r"))]),
    );
    add_manifest(&mut known, "/l", config("left", vec![("g", git("u", Some("B")))]));
    add_manifest(&mut known, "/r", config("right", vec![("g", git("u", Some("A")))]));
    add_manifest(&mut known, "/w/.cook/deps/g", config("gee", vec![]));
    add_cook_dir_later(&mut known, 1, "/l", "/l");
    add_cook_dir_later(&mut known, 2, "/r", "/r");
    let mut revs = Vec::new();
    while let Err(Stop::Need(Request::Checkout { want, turn })) =
        resolve_from_manifest("/p/cook.toml", options(), &known, false)
    {
        assert_eq!(turn, revs.len());
        revs.push(want.rev.clone());
        known.checkouts.push((want, Ok(checked_out(Some("/w/.cook/deps/g/cook.toml")))));
    }
    assert_eq!(revs, ["A", "B", "A"]);
    let r = resolve_from_manifest("/p/cook.toml", options(), &known, false).unwrap();
    assert_eq!(
        r.build_order,
        vec!["gee".to_string(), "left".to_string(), "right".to_string()]
    );
    // The package was loaded at its first use and stays as it was then.
    assert!(matches!(&r.packages[1].source,
        PackageSource::Git { requested_rev, .. } if requested_rev == "A"));
}

#[test]
fn a_directory_is_looked_at_again_after_a_checkout() {
    let mut known = Findings::new();
    add_manifest(
        &mut known,
        "/p",
        config("app", vec![("a", path("/x")), ("g", git("u", Some("A"))), ("h", path("/x"))]),
    );
    add_manifest(&mut known, "/x", config("ex", vec![]));
    add_manifest(&mut known, "/w/.cook/deps/g", config("gee", vec![]));
    add_cook_dir(&mut known, "/x", "/x");
    let want = match resolve_from_manifest("/p/cook.toml", options(), &known, false) {
        Err(Stop::Need(Request::Checkout { want, turn: 0 })) => want,
        other => panic!("unexpected {other:?}"),
    };
    known.checkouts.push((want, Ok(checked_out(Some("/w/.cook/deps/g/cook.toml")))));
    assert!(matches!(resolve_from_manifest("/p/cook.toml", options(), &known, false),
        Err(Stop::Need(Request::Directory { path, turn: 1 })) if path == "/x"));
    sight(&mut known, 1).directories.insert("/x".to_string(), Err(Failure::new("gone".to_string())));
    assert_eq!(failure(resolve_from_manifest("/p/cook.toml", options(), &known, false)), "gone");
}

#[test]
fn a_project_is_resolved_by_the_rules_of_windows() {
    let root = "\\\\?\\C:\\p";
    let manifest = format!("{root}\\cook.toml");
    let mut known = Findings::new();
    known.manifests.insert(
        manifest.clone(),
        Ok(config("app", vec![("g", git("u", Some("A"))), ("lib", path("../lib"))])),
    );
    let want = match resolve_from_manifest(&manifest, ResolveOptions::default(), &known, true) {
        Err(Stop::Need(Request::Checkout { want, turn: 0 })) => want,
        other => panic!("unexpected {other:?}"),
    };
    assert_eq!(want.dir, ".\\.cook\\deps\\g");
    assert!(want.windows);
    known.checkouts.push((want, Ok(checked_out(Some("\\\\?\\C:\\p\\.cook\\deps\\g\\cook.toml")))));
    known.manifests.insert(
        "\\\\?\\C:\\p\\.cook\\deps\\g\\cook.toml".to_string(),
        Ok(config("gee", vec![])),
    );
    assert!(matches!(
        resolve_from_manifest(&manifest, ResolveOptions::default(), &known, true),
        Err(Stop::Need(Request::Directory { path, turn: 1 })) if path == "\\\\?\\C:\\lib"));
    add_plain_dir_later(&mut known, 1, "\\\\?\\C:\\lib", "\\\\?\\C:\\lib", true, false);
    assert!(matches!(
        resolve_from_manifest(&manifest, ResolveOptions::default(), &known, true),
        Err(Stop::Need(Request::File { path, turn: 1 }))
            if path == "\\\\?\\C:\\lib\\CMakeLists.txt"));
    sight(&mut known, 1)
        .files
        .insert("\\\\?\\C:\\lib\\CMakeLists.txt".to_string(), Ok(Vec::new()));
    let r = resolve_from_manifest(&manifest, ResolveOptions::default(), &known, true).unwrap();
    assert_eq!(r.build_order, vec!["gee".to_string(), "lib".to_string()]);
    assert_eq!(r.packages[0].root_dir, "C:/p");
    assert_eq!(r.packages[2].root_dir, "C:/lib");
    assert_eq!(r.packages[2].external_manifest_path, Some("C:/lib/CMakeLists.txt".to_string()));
}

#[test]
fn cycles_are_labelled_by_the_rules_of_windows() {
    let mut known = Findings::new();
    for (dir, other) in [("C:\\a", "..\\b"), ("C:\\b", "..\\a")] {
        known
            .manifests
            .insert(format!("{dir}\\cook.toml"), Ok(config(dir, vec![("o", path(other))])));
    }
    let facts = |dir: &str| {
        Ok(DirectoryFacts {
            root: dir.to_string(),
            cook_manifest: Some(format!("{dir}\\cook.toml")),
            cmake_lists: false,
            makefile: false,
            lower_makefile: false,
        })
    };
    sight(&mut known, 0).directories.insert("C:\\a\\..\\b".to_string(), facts("C:\\b"));
    sight(&mut known, 0).directories.insert("C:\\b\\..\\a".to_string(), facts("C:\\a"));
    assert_eq!(
        failure(resolve_from_manifest("C:\\a\\cook.toml", options(), &known, true)),
        "dependency cycle detected: a -> b -> a"
    );
}

#[test]
fn exports_follow_the_rules_of_windows() {
    assert_eq!(resolve_export_lib("C:\\r", "D:\\x.lib", true), "D:/x.lib");
    assert_eq!(resolve_export_lib("C:\\r", "lib\\x.lib", true), "C:/r/lib/x.lib");
    assert_eq!(resolve_export_lib("C:\\r", "\\x.lib", true), "C:/x.lib");
    assert_eq!(resolve_export_lib("C:\\r", "x", true), "x");
}

#[test]
fn a_checkout_follows_the_rules_of_windows() {
    let mut want = request(false, None);
    want.dir = "C:\\w\\d".to_string();
    want.windows = true;
    let mut seen = CheckoutReplies::new();
    seen.directory_present = Some(false);
    assert!(matches!(materialize_git_dependency(&want, &seen),
        CheckoutStep::CreateParent(p) if p == "C:\\w"));
    seen.parent_created = Some(Ok(()));
    seen.obtained.push(ended(true, ""));
    assert!(matches!(materialize_git_dependency(&want, &seen),
        CheckoutStep::LookForRepository(p) if p == "C:\\w\\d\\.git"));
}
