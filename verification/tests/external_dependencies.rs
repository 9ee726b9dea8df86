use cook::backends::BuildProfile;
use cook::config::{BuildCompiler, DependencyBuildControls, DependencyVisibility};
use cook::externals::{
    apply_external_export_defaults, choose_pc_file, cmake_defines_for_dependency, pkg_config_places,
    prepare_external_dependencies, prepare_external_dependency, ExternalReplies, ExternalStep,
    PkgConfigFacts,
};
use cook::failure::Failure;
use cook::pkg_config::PkgConfigLinkMetadata;
use cook::packages::{ExternalBuildSystem, ResolvedDependency, ResolvedExports};
use cook::programs::{run_commands, CommandProgress, ProgramOutcome};
use cook::backends::CommandSpec;

fn words(items: &[&str]) -> Vec<String> {
    items.iter().map(|s| s.to_string()).collect()
}

fn dep(system: Option<ExternalBuildSystem>) -> ResolvedDependency {
    ResolvedDependency {
        name: "Raylib".to_string(),
        root_dir: "/r".to_string(),
        visibility: DependencyVisibility::Public,
        abi_fingerprint: String::new(),
        external_build_system: system,
        external_manifest_path: None,
        external_manifest_hash: None,
        exports: ResolvedExports::default(),
        build: DependencyBuildControls::default(),
    }
}

fn ended(success: bool) -> ProgramOutcome {
    ProgramOutcome::Ended {
        success,
        status: "exit status: 2".to_string(),
        output: String::new(),
    }
}

fn next(dep: &ResolvedDependency, known: &ExternalReplies) -> ExternalStep {
    prepare_external_dependency(dep, BuildProfile::Debug, BuildCompiler::Gcc, false, Some(known))
        .unwrap_err()
}

#[test]
fn a_cmake_dependency_goes_step_by_step() {
    let mut d = dep(Some(ExternalBuildSystem::Cmake));
    d.build.exclude = words(&[" Examples "]);
    d.build.cmake.defines.insert("A".to_string(), "1".to_string());
    d.build.cmake.defines.insert("Z".to_string(), "2".to_string());
    d.build.configure_args = words(&["--c"]);
    d.build.build_args = words(&["--b"]);
    d.build.install_args = words(&["--i"]);
    assert!(matches!(
        prepare_external_dependency(&d, BuildProfile::Debug, BuildCompiler::Gcc, false, None),
        Err(ExternalStep::Announce(m)) if m == "preparing external dependency 'Raylib' using cmake"));
    let mut known = ExternalReplies::new();
    assert!(matches!(next(&d, &known), ExternalStep::Announce(_)));
    known.announced = true;
    let base = "target/debug/deps/Raylib/gcc";
    assert!(matches!(next(&d, &known), ExternalStep::CreateDirectories(list)
        if list == vec![format!("{base}/build"), format!("{base}/install")]));
    known.directories = Some(Ok(()));
    let expected = [
        vec![
            "-S",
            "/r",
            "-B",
            "target/debug/deps/Raylib/gcc/build",
            "-DCMAKE_BUILD_TYPE=Debug",
            "-DCMAKE_INSTALL_PREFIX=target/debug/deps/Raylib/gcc/install",
            "-DA=1",
            "-DBUILD_EXAMPLES=OFF",
            "-DZ=2",
            "-DCMAKE_C_COMPILER=gcc",
            "-DCMAKE_CXX_COMPILER=g++",
            "--c",
        ],
        vec!["--build", "target/debug/deps/Raylib/gcc/build", "--config", "Debug", "--b"],
        vec!["--install", "target/debug/deps/Raylib/gcc/build", "--config", "Debug", "--i"],
    ];
    for args in expected {
        match next(&d, &known) {
            ExternalStep::Run { command, flags } => {
                assert_eq!(command.program, "cmake");
                assert_eq!(command.args, words(&args));
                assert_eq!(flags, None);
            }
            other => panic!("unexpected {other:?}"),
        }
        known.ran.push(ended(true));
    }
    let root = format!("{base}/install");
    assert!(matches!(next(&d, &known), ExternalStep::LookForPkgConfig { dir, preferred }
        if dir == format!("{root}/lib/pkgconfig")
            && preferred == format!("{root}/lib/pkgconfig/Raylib.pc")));
    known.pkg_config = Some(PkgConfigFacts {
        dir_present: true,
        preferred_present: false,
        listing: words(&["x/readme", "x/ray.PC", "x/b.pc"]),
    });
    assert!(matches!(next(&d, &known), ExternalStep::ReadPkgConfig(p) if p == "x/ray.PC"));
    known.pc_content = Some(Some("Libs: -L/opt -lraylib -lm\n".to_string()));
    let ready = prepare_external_dependency(
        &d,
        BuildProfile::Debug,
        BuildCompiler::Gcc,
        false,
        Some(&known),
    )
    .unwrap();
    assert_eq!(ready.root_dir, root);
    assert_eq!(ready.exports.include_dirs, vec![format!("{root}/include")]);
    assert_eq!(
        ready.exports.lib_dirs,
        vec![format!("{root}/lib"), format!("{root}/lib64"), "/opt".to_string()]
    );
    assert_eq!(ready.exports.libs, words(&["Raylib", "raylib", "m"]));
}

#[test]
fn a_make_dependency_is_built_in_place() {
    let d = dep(Some(ExternalBuildSystem::Make));
    let mut known = ExternalReplies::new();
    known.announced = true;
    match prepare_external_dependency(
        &d,
        BuildProfile::Release,
        BuildCompiler::Gcc,
        false,
        Some(&known),
    ) {
        Err(ExternalStep::Run { command, flags }) => {
            assert_eq!(command.program, "make");
            assert_eq!(command.args, words(&["-C", "/r"]));
            assert_eq!(flags, Some("-O3 -DNDEBUG".to_string()));
        }
        other => panic!("unexpected {other:?}"),
    }
    assert!(matches!(next(&d, &known), ExternalStep::Run { flags: Some(f), .. } if f == "-O0 -g"));
    known.ran.push(ended(true));
    known.pkg_config = Some(PkgConfigFacts {
        dir_present: false,
        preferred_present: true,
        listing: words(&["a.pc"]),
    });
    let ready = prepare_external_dependency(
        &d,
        BuildProfile::Release,
        BuildCompiler::Gcc,
        true,
        Some(&known),
    )
    .unwrap();
    assert_eq!(ready.root_dir, "/r");
    assert_eq!(ready.exports.include_dirs, words(&["/r/include", "/r"]));
    assert_eq!(ready.exports.lib_dirs, words(&["/r/lib", "/r/target/release", "/r"]));
    assert_eq!(ready.exports.libs, words(&["Raylib", "winmm", "gdi32", "opengl32"]));
}

#[test]
fn given_exports_stay_in_front() {
    let mut d = dep(Some(ExternalBuildSystem::Make));
    d.exports.include_dirs = words(&["/i"]);
    d.exports.lib_dirs = words(&["/l"]);
    d.exports.libs = words(&["q"]);
    let mut known = ExternalReplies::new();
    known.announced = true;
    known.ran.push(ended(true));
    known.pkg_config = Some(PkgConfigFacts {
        dir_present: true,
        preferred_present: true,
        listing: Vec::new(),
    });
    assert!(matches!(next(&d, &known), ExternalStep::ReadPkgConfig(p)
        if p == "/r/lib/pkgconfig/Raylib.pc"));
    known.pc_content = Some(Some("Libs: -L/l -L/m -lq -lw".to_string()));
    let ready = prepare_external_dependency(
        &d,
        BuildProfile::Debug,
        BuildCompiler::Gcc,
        false,
        Some(&known),
    )
    .unwrap();
    assert_eq!(ready.exports.include_dirs, words(&["/i"]));
    assert_eq!(ready.exports.lib_dirs, words(&["/l", "/m"]));
    assert_eq!(ready.exports.libs, words(&["q", "w"]));
    known.pc_content = Some(None);
    let plain = prepare_external_dependency(
        &d,
        BuildProfile::Debug,
        BuildCompiler::Gcc,
        false,
        Some(&known),
    )
    .unwrap();
    assert_eq!(plain.exports.libs, words(&["q"]));
}

#[test]
fn failures_of_external_builds_are_told() {
    let fail = |system: ExternalBuildSystem, known: &ExternalReplies| {
        match next(&dep(Some(system)), known) {
            ExternalStep::Failed(f) => f.message,
            other => panic!("unexpected {other:?}"),
        }
    };
    let mut known = ExternalReplies::new();
    known.announced = true;
    known.directories = Some(Err(Failure::new("denied".to_string())));
    assert_eq!(fail(ExternalBuildSystem::Cmake, &known), "denied");
    known.directories = Some(Ok(()));
    known.ran = vec![ended(true), ended(false)];
    assert_eq!(
        fail(ExternalBuildSystem::Cmake, &known),
        "command failed: cmake --build target/debug/deps/Raylib/gcc/build --config Debug"
    );
    known.ran = vec![ended(false)];
    assert_eq!(
        fail(ExternalBuildSystem::Make, &known),
        "make build failed for dependency 'Raylib' at /r"
    );
    known.ran = vec![ProgramOutcome::NotStarted("x".to_string())];
    assert_eq!(
        fail(ExternalBuildSystem::Make, &known),
        "failed to run make for dependency Raylib"
    );
}

#[test]
fn dependencies_are_made_ready_one_after_another() {
    let list = vec![dep(None), dep(Some(ExternalBuildSystem::Make)), dep(None)];
    match prepare_external_dependencies(
        &list,
        BuildProfile::Debug,
        BuildCompiler::Gcc,
        false,
        &Vec::new(),
    ) {
        Err((1, ExternalStep::Announce(_))) => {}
        other => panic!("unexpected {other:?}"),
    }
    let mut known = ExternalReplies::new();
    known.announced = true;
    known.ran.push(ended(true));
    known.pkg_config = Some(PkgConfigFacts {
        dir_present: false,
        preferred_present: false,
        listing: Vec::new(),
    });
    let replies = vec![ExternalReplies::new(), known];
    let ready = prepare_external_dependencies(
        &list,
        BuildProfile::Debug,
        BuildCompiler::Gcc,
        false,
        &replies,
    )
    .unwrap();
    assert_eq!(ready.len(), 3);
    assert!(ready.iter().all(|d| d.name == "Raylib"));
    assert!(ready[0].exports.libs.is_empty());
    assert_eq!(ready[1].exports.libs, words(&["Raylib"]));
}

#[test]
fn a_definition_of_the_user_wins() {
    let mut d = dep(Some(ExternalBuildSystem::Cmake));
    d.build.exclude = words(&["tests", "EXAMPLES"]);
    d.build.cmake.defines.insert("BUILD_EXAMPLES".to_string(), "ON".to_string());
    let defines = cmake_defines_for_dependency(&d);
    assert_eq!(defines.len(), 1);
    assert_eq!(defines.get("BUILD_EXAMPLES").map(|s| s.as_str()), Some("ON"));
    d.build.exclude = words(&["tests"]);
    d.build.cmake = Default::default();
    assert_eq!(cmake_defines_for_dependency(&d).len(), 0);
}

#[test]
fn pkg_config_files_have_places() {
    let (dir, preferred) = pkg_config_places("/r", "n", false);
    assert_eq!(dir, "/r/lib/pkgconfig");
    assert_eq!(preferred, "/r/lib/pkgconfig/n.pc");
    assert_eq!(choose_pc_file("p", true, &words(&["a.pc"]), false), Some("p".to_string()));
    assert_eq!(
        choose_pc_file("p", false, &words(&["a.px", "b.Pc"]), false),
        Some("b.Pc".to_string())
    );
    assert_eq!(choose_pc_file("p", false, &words(&["pc", ".pc"]), false), None);
}

#[test]
fn commands_run_in_order_until_one_fails() {
    let steps = vec![
        CommandSpec { program: "a".to_string(), args: words(&["1"]) },
        CommandSpec { program: "b".to_string(), args: words(&["2", "3"]) },
    ];
    assert!(matches!(run_commands(&steps, &Vec::new()), CommandProgress::Run(0)));
    assert!(matches!(run_commands(&steps, &vec![ended(true)]), CommandProgress::Run(1)));
    assert!(matches!(run_commands(&steps, &vec![ended(true), ended(true)]), CommandProgress::Done));
    assert!(matches!(run_commands(&Vec::new(), &Vec::new()), CommandProgress::Done));
    match run_commands(&steps, &vec![ended(true), ended(false)]) {
        CommandProgress::Failed(f) => assert_eq!(f.message, "command failed: b 2 3"),
        other => panic!("unexpected {other:?}"),
    }
    match run_commands(&steps, &vec![ProgramOutcome::NotStarted("x".to_string())]) {
        CommandProgress::Failed(f) => assert_eq!(f.message, "failed to run command: a 1"),
        other => panic!("unexpected {other:?}"),
    }
}

#[test]
fn export_defaults_are_filled_in_once() {
    let told = PkgConfigLinkMetadata { lib_dirs: words(&["/p/lib"]), libs: words(&["m", "Raylib"]) };
    for system in [ExternalBuildSystem::Cmake, ExternalBuildSystem::Make] {
        let mut d = dep(Some(system));
        apply_external_export_defaults(&mut d, BuildProfile::Debug, Some(&told), true);
        let once = d.exports.clone();
        assert_eq!(once.libs, words(&["Raylib", "m", "winmm", "gdi32", "opengl32"]));
        assert!(once.lib_dirs.contains(&"/p/lib".to_string()));
        apply_external_export_defaults(&mut d, BuildProfile::Debug, Some(&told), true);
        assert!(once.same(&d.exports));
    }
}

#[test]
fn external_directories_follow_the_rules_of_windows() {
    let d = dep(Some(ExternalBuildSystem::Cmake));
    let mut known = ExternalReplies::new();
    known.announced = true;
    assert!(matches!(
        prepare_external_dependency(&d, BuildProfile::Debug, BuildCompiler::Gcc, true, Some(&known)),
        Err(ExternalStep::CreateDirectories(list)) if list == words(&[
            "target\\debug\\deps\\Raylib\\gcc\\build",
            "target\\debug\\deps\\Raylib\\gcc\\install",
        ])));
    let (dir, preferred) = pkg_config_places("C:/r", "n", true);
    assert_eq!(dir, "C:/r\\lib\\pkgconfig");
    assert_eq!(preferred, "C:/r\\lib\\pkgconfig\\n.pc");
    assert_eq!(
        choose_pc_file("p", false, &words(&["x.d\\pc", "y\\b.pc"]), true),
        Some("y\\b.pc".to_string())
    );
}
