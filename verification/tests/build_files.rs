use cook::backends::{
    absolute_path, cmake_toolchain_args, compiler_id, BuildBackend, BuildPlan, BuildProfile,
    CmakeBackend, MakeBackend,
};
use cook::cache::{cache_hit, compute_build_fingerprint, SourceFacts};
use cook::config::{
    BuildCompileParams, BuildCompiler, DependencyBuildControls, DependencyVisibility,
    OptimizationLevel,
};
use cook::ordered_map::OrderedMap;
use cook::paths;
use cook::packages::{ExternalBuildSystem, ResolvedDependency, ResolvedExports};

fn words(items: &[&str]) -> Vec<String> {
    items.iter().map(|s| s.to_string()).collect()
}

fn inner(name: &str, root: &str) -> ResolvedDependency {
    ResolvedDependency {
        name: name.to_string(),
        root_dir: root.to_string(),
        visibility: DependencyVisibility::Private,
        abi_fingerprint: "f".to_string(),
        external_build_system: None,
        external_manifest_path: None,
        external_manifest_hash: None,
        exports: ResolvedExports::default(),
        build: DependencyBuildControls::default(),
    }
}

fn outer(name: &str) -> ResolvedDependency {
    let mut dep = inner(name, "/ext");
    dep.external_build_system = Some(ExternalBuildSystem::Cmake);
    dep.exports = ResolvedExports {
        include_dirs: words(&["/ext/include"]),
        lib_dirs: words(&["/ext/lib", "/ext/lib64"]),
        libs: words(&["m", "/ext/lib/libq.a", "-pthread", "z.SO"]),
    };
    dep
}

fn plan() -> BuildPlan {
    BuildPlan {
        project_name: "app".to_string(),
        cpp_standard: "20".to_string(),
        compiler: BuildCompiler::Gcc,
        profile: BuildProfile::Debug,
        build_threads: 4,
        compile_params: BuildCompileParams::default(),
        target_dir: "target".to_string(),
        sources: words(&["src/a.C", "src/main.cpp"]),
        dependencies: vec![inner("core", "/core"), outer("ext")],
        windows: false,
    }
}

#[test]
fn profiles_and_compilers_have_names() {
    assert_eq!(BuildProfile::Debug.as_str(), "debug");
    assert_eq!(BuildProfile::Release.as_str(), "release");
    assert_eq!(BuildProfile::Debug.cmake_config_name(), "Debug");
    assert_eq!(BuildProfile::Release.cmake_config_name(), "Release");
    assert_eq!(compiler_id(BuildCompiler::Gcc), "gcc");
    assert_eq!(compiler_id(BuildCompiler::Msvc), "msvc");
    assert_eq!(plan().profile_target_dir(), "target/debug");
    assert_eq!(plan().backend_build_dir(), "target/debug/cook-build-gcc");
    assert_eq!(absolute_path("a/b", Some("/w"), false), "/w/a/b");
    assert_eq!(absolute_path("/a/b", Some("/w"), false), "/a/b");
    assert_eq!(absolute_path("a/b", None, false), "a/b");
}

#[test]
fn toolchains_depend_on_the_system() {
    assert_eq!(
        cmake_toolchain_args(BuildCompiler::Gcc, false),
        words(&["-DCMAKE_C_COMPILER=gcc", "-DCMAKE_CXX_COMPILER=g++"])
    );
    assert_eq!(
        cmake_toolchain_args(BuildCompiler::Gcc, true),
        words(&[
            "-G",
            "MinGW Makefiles",
            "-DCMAKE_C_COMPILER=gcc",
            "-DCMAKE_CXX_COMPILER=g++"
        ])
    );
    assert!(cmake_toolchain_args(BuildCompiler::Msvc, false).is_empty());
    assert_eq!(
        cmake_toolchain_args(BuildCompiler::Msvc, true),
        words(&["-G", "Visual Studio 17 2022"])
    );
}

#[test]
fn cmake_files_are_written_in_full() {
    let mut p = plan();
    p.compile_params = BuildCompileParams {
        optimization: Some(OptimizationLevel::O2),
        fast_math: true,
        c_flags: words(&["-DX=\"y\""]),
        cxx_flags: words(&["-fno-rtti", "-DP=a\\b"]),
    };
    let expected = r#"cmake_minimum_required(VERSION 3.15)
project(app C CXX)

set(CMAKE_C_STANDARD 11)
set(CMAKE_CXX_STANDARD 20)
set(CMAKE_CXX_STANDARD_REQUIRED ON)
set(CMAKE_EXPORT_COMPILE_COMMANDS ON)
set(CMAKE_RUNTIME_OUTPUT_DIRECTORY "/w/target/debug")
set(CMAKE_RUNTIME_OUTPUT_DIRECTORY_DEBUG "/w/target/debug")
set(CMAKE_RUNTIME_OUTPUT_DIRECTORY_RELEASE "/w/target/debug")
set(CMAKE_LIBRARY_OUTPUT_DIRECTORY "/w/target/debug")
set(CMAKE_ARCHIVE_OUTPUT_DIRECTORY "/w/target/debug")

set(CMAKE_C_FLAGS "${CMAKE_C_FLAGS} -O2 -ffast-math -DX=\"y\"")
set(CMAKE_CXX_FLAGS "${CMAKE_CXX_FLAGS} -O2 -ffast-math -fno-rtti -DP=a\\b")

add_subdirectory("/core" "${CMAKE_BINARY_DIR}/deps/core")

add_executable(app
    src/a.C
    src/main.cpp
)

target_include_directories(app PRIVATE "/ext/include")
target_link_directories(app PRIVATE "/ext/lib")
target_link_directories(app PRIVATE "/ext/lib64")

target_link_libraries(app PRIVATE core m "/ext/lib/libq.a" -pthread z.SO)
"#;
    assert_eq!(CmakeBackend.render(&p, Some("/w")).unwrap(), expected);
    assert_eq!(CmakeBackend.manifest_path(&p), "CMakeLists.txt");
    assert_eq!(CmakeBackend.backend_id(), "cmake");
}

#[test]
fn cmake_files_leave_out_what_is_not_there() {
    let mut p = plan();
    p.dependencies = Vec::new();
    p.sources = words(&["src/main.cpp"]);
    let text = CmakeBackend.render(&p, None).unwrap();
    assert!(text.contains("_DIRECTORY \"target/debug\")\n\n\n\n\n\nadd_executable(app\n"));
    assert!(text.ends_with("    src/main.cpp\n)\n\n\n\n\n\n"));
}

#[test]
fn msvc_has_flags_of_its_own() {
    let mut p = plan();
    p.compiler = BuildCompiler::Msvc;
    p.compile_params.fast_math = true;
    let cases = [
        (OptimizationLevel::O0, "/Od"),
        (OptimizationLevel::O1, "/O1"),
        (OptimizationLevel::O2, "/O2"),
        (OptimizationLevel::O3, "/Ox"),
        (OptimizationLevel::Os, "/O1"),
        (OptimizationLevel::Oz, "/O1"),
    ];
    for (level, flag) in cases {
        p.compile_params.optimization = Some(level);
        let text = CmakeBackend.render(&p, None).unwrap();
        assert!(text.contains(&format!("${{CMAKE_C_FLAGS}} {flag} /fp:fast\")")));
    }
}

#[test]
fn makefiles_are_written_in_full() {
    let expected = r#"CC ?= gcc
CXX ?= g++
CFLAGS ?= -O0 -g -Wall
CXXFLAGS ?= -O0 -g -Wall -std=c++20
INCLUDES := -I/core/include -I/ext/include
DEP_LINKS := -L/core/target/debug -lcore -L/ext/lib -L/ext/lib64 -lm /ext/lib/libq.a -pthread z.SO
OUTPUT := target/debug/app
OBJECTS := target/debug/obj/0.o target/debug/obj/1.o

ifeq ($(OS),Windows_NT)
MKDIR_P = if not exist "$(subst /,\,$(patsubst %/,%,$(1)))" mkdir "$(subst /,\,$(patsubst %/,%,$(1)))"
RM_RF = if exist "$(subst /,\,$(patsubst %/,%,$(1)))" rmdir /S /Q "$(subst /,\,$(patsubst %/,%,$(1)))"
else
MKDIR_P = mkdir -p "$(1)"
RM_RF = rm -rf "$(1)"
endif

all: $(OUTPUT)

$(OUTPUT): $(OBJECTS)
	@$(call MKDIR_P,$(dir $@))
	$(CXX) $(OBJECTS) $(DEP_LINKS) -o $@

target/debug/obj/0.o: src/a.C
	@$(call MKDIR_P,$(dir $@))
	$(CC) $(CFLAGS) $(INCLUDES) -c $< -o $@

target/debug/obj/1.o: src/main.cpp
	@$(call MKDIR_P,$(dir $@))
	$(CXX) $(CXXFLAGS) $(INCLUDES) -c $< -o $@

clean:
	@$(call RM_RF,target/debug)
"#;
    assert_eq!(MakeBackend.render(&plan(), Some("/w")).unwrap(), expected);
    assert_eq!(MakeBackend.manifest_path(&plan()), "target/debug/Makefile");
    assert_eq!(MakeBackend.backend_id(), "make");
}

#[test]
fn make_flags_follow_the_profile() {
    let mut p = plan();
    p.profile = BuildProfile::Release;
    p.compile_params.fast_math = true;
    p.compile_params.c_flags = words(&["-c1"]);
    p.compile_params.cxx_flags = words(&["-x1"]);
    let text = MakeBackend.render(&p, None).unwrap();
    assert!(text.contains("\nCFLAGS ?= -O3 -DNDEBUG -Wall -ffast-math -c1\n"));
    assert!(text.contains("\nCXXFLAGS ?= -O3 -DNDEBUG -Wall -ffast-math -c1 -std=c++20 -x1\n"));
    p.compile_params.optimization = Some(OptimizationLevel::Os);
    let text = MakeBackend.render(&p, None).unwrap();
    assert!(text.contains("\nCFLAGS ?= -Os -DNDEBUG"));
}

#[test]
fn make_links_files_by_their_names() {
    let mut p = plan();
    p.dependencies = vec![outer("ext")];
    p.dependencies[0].exports.lib_dirs = Vec::new();
    p.dependencies[0].exports.libs =
        words(&["x.A", "x.dylib", "x.lib", "./x", "a\\b", "x.axe", "sox"]);
    let text = MakeBackend.render(&p, None).unwrap();
    assert!(text.contains("DEP_LINKS := x.A x.dylib x.lib ./x a\\b -lx.axe -lsox\n"));
}

#[test]
fn without_sources_there_is_no_build_file() {
    let mut p = plan();
    p.sources = Vec::new();
    let message = "no source files were discovered under src/";
    assert_eq!(CmakeBackend.render(&p, None).unwrap_err().message, message);
    assert_eq!(MakeBackend.render(&p, None).unwrap_err().message, message);
}

#[test]
fn commands_are_those_of_the_build_system() {
    let p = plan();
    let configure = CmakeBackend.configure_steps(&p);
    assert_eq!(configure.len(), 1);
    assert_eq!(configure[0].program, "cmake");
    assert_eq!(
        configure[0].args,
        words(&[
            "-B",
            "target/debug/cook-build-gcc",
            "-S",
            ".",
            "-DCMAKE_BUILD_TYPE=Debug",
            "-DCMAKE_C_COMPILER=gcc",
            "-DCMAKE_CXX_COMPILER=g++"
        ])
    );
    let build = CmakeBackend.build_steps(&p);
    assert_eq!(
        build[0].args,
        words(&[
            "--build",
            "target/debug/cook-build-gcc",
            "--config",
            "Debug",
            "--parallel",
            "4"
        ])
    );
    assert!(MakeBackend.configure_steps(&p).is_empty());
    let make = MakeBackend.build_steps(&p);
    assert_eq!(make[0].program, "make");
    assert_eq!(make[0].args, words(&["-f", "target/debug/Makefile", "-j4", "all"]));
}

#[test]
fn at_least_one_thread_is_used() {
    let mut p = plan();
    p.build_threads = 0;
    assert_eq!(MakeBackend.build_steps(&p)[0].args[2], "-j1");
    assert_eq!(CmakeBackend.build_steps(&p)[0].args[5], "1");
}

#[test]
fn programs_are_looked_for_in_the_profile_directory() {
    let p = plan();
    let make = MakeBackend.artifact_candidates(&p);
    assert_eq!(make, words(&["target/debug/app", "target/debug/app.exe"]));
    let cmake = CmakeBackend.artifact_candidates(&p);
    assert_eq!(
        cmake,
        words(&[
            "target/debug/app",
            "target/debug/app.exe",
            "target/debug/Debug/app",
            "target/debug/Debug/app.exe"
        ])
    );
    assert_eq!(cmake[..2], make[..]);
    let mut release = plan();
    release.profile = BuildProfile::Release;
    for path in CmakeBackend.artifact_candidates(&release) {
        assert!(!cmake.contains(&path));
    }
}

fn hex(text: &str) -> String {
    format!("{:x}", <sha2::Sha256 as sha2::Digest>::digest(text.as_bytes()))
}

#[test]
fn fingerprints_cover_all_that_matters() {
    let mut p = plan();
    p.dependencies = vec![outer("ext")];
    p.dependencies[0].external_manifest_path = Some("/ext/CMakeLists.txt".to_string());
    p.dependencies[0].build.exclude = words(&["examples"]);
    p.dependencies[0].build.cmake.defines.insert("K".to_string(), "V\"".to_string());
    let mut facts = OrderedMap::new();
    facts.insert("src/a.C".to_string(), SourceFacts { len: 12, modified: Some(345) });
    let text = "backend=cmake\ncompiler=Gcc\nproject=app\ncpp_standard=20\nversion = 1\n\
src=src/a.C\nlen=12\nmtime=345\nsrc=src/main.cpp\n\
dep=ext\ndep_abi=f\ndep_vis=Private\ndep_external=Some(Cmake)\n\
dep_external_manifest=Some(\"/ext/CMakeLists.txt\")\ndep_external_manifest_hash=None\n\
dep_external_include_dirs=[\"/ext/include\"]\n\
dep_external_lib_dirs=[\"/ext/lib\", \"/ext/lib64\"]\n\
dep_external_libs=[\"m\", \"/ext/lib/libq.a\", \"-pthread\", \"z.SO\"]\n\
dep_build_exclude=[\"examples\"]\ndep_build_configure_args=[]\ndep_build_build_args=[]\n\
dep_build_install_args=[]\ndep_build_cmake_defines={\"K\": \"V\\\"\"}\n";
    let key = compute_build_fingerprint(&p, "cmake", "version = 1\n", &facts);
    assert_eq!(key, hex(text));
    facts.insert("src/a.C".to_string(), SourceFacts { len: 12, modified: None });
    let other = compute_build_fingerprint(&p, "cmake", "version = 1\n", &facts);
    assert_eq!(other, hex(&text.replace("mtime=345\n", "")));
    assert_ne!(other, key);
}

#[test]
fn a_written_key_is_a_hit_while_the_program_is_there() {
    let key = compute_build_fingerprint(&plan(), "make", "", &OrderedMap::new());
    assert!(cache_hit(Some(&key), &key, &vec![false, true]));
    assert!(cache_hit(Some(&format!("{key}\n")), &key, &vec![true]));
    assert!(!cache_hit(Some(&key), &key, &vec![false, false]));
    assert!(!cache_hit(None, &key, &vec![true]));
    assert!(!cache_hit(Some("x"), &key, &vec![true]));
}

#[test]
fn plans_follow_the_rules_of_windows() {
    let mut p = plan();
    p.windows = true;
    assert_eq!(p.profile_target_dir(), "target\\debug");
    assert_eq!(p.backend_build_dir(), "target\\debug\\cook-build-gcc");
    assert_eq!(MakeBackend.manifest_path(&p), "target/debug/Makefile");
    assert_eq!(absolute_path("target\\debug", Some("C:\\w"), true), "C:\\w\\target\\debug");
    assert_eq!(absolute_path("D:\\t", Some("C:\\w"), true), "D:\\t");
    assert_eq!(absolute_path("\\t", Some("C:\\w"), true), "C:\\t");
}

#[test]
fn fingerprints_are_64_lower_case_hexadecimal_digits() {
    let key = compute_build_fingerprint(&plan(), "make", "", &OrderedMap::new());
    assert_eq!(key.len(), 64);
    assert!(key.chars().all(|c| matches!(c, '0'..='9' | 'a'..='f')));
}

#[test]
fn fingerprints_rest_on_the_sources_of_the_plan() {
    let p = plan();
    let mut facts = OrderedMap::new();
    let none = compute_build_fingerprint(&p, "make", "", &facts);
    facts.insert("src/other.c".to_string(), SourceFacts { len: 1, modified: None });
    assert_eq!(compute_build_fingerprint(&p, "make", "", &facts), none);
    facts.insert("src/main.cpp".to_string(), SourceFacts { len: 1, modified: None });
    assert_ne!(compute_build_fingerprint(&p, "make", "", &facts), none);
}

#[test]
fn build_directories_are_kept_apart() {
    for (windows, target) in [
        (false, "target"),
        (false, ""),
        (true, "target"),
        (true, "C:"),
        (true, "\\\\?\\C:\\w\\\\target\\"),
        (true, "\\\\server"),
    ] {
        let mut dirs = Vec::new();
        for profile in [BuildProfile::Debug, BuildProfile::Release] {
            for compiler in [BuildCompiler::Gcc, BuildCompiler::Msvc] {
                let mut p = plan();
                p.windows = windows;
                p.target_dir = target.to_string();
                p.profile = profile;
                p.compiler = compiler;
                assert_eq!(p.backend_build_dir(), p.clone().backend_build_dir());
                dirs.push(p.backend_build_dir());
            }
        }
        for i in 0..dirs.len() {
            for j in 0..i {
                assert_ne!(dirs[i], dirs[j]);
            }
        }
    }
}

#[test]
fn build_directories_lie_in_the_directory_of_the_profile() {
    let mut p = plan();
    p.profile = BuildProfile::Release;
    p.compiler = BuildCompiler::Msvc;
    assert_eq!(p.backend_build_dir(), "target/release/cook-build-msvc");
    for (windows, target) in
        [(false, "target"), (true, "target"), (true, "\\\\?\\C:\\w\\\\target\\"), (true, "C:\\")]
    {
        p.windows = windows;
        p.target_dir = target.to_string();
        let dir = p.backend_build_dir();
        assert_eq!(paths::parent_of(windows, &dir), Some(p.profile_target_dir()));
        assert_eq!(paths::file_name_of(windows, &dir), Some("cook-build-msvc".to_string()));
    }
}
