//! The build systems that a project can be built with.
use vstd::prelude::*;
use vstd::string::*;

use crate::config;
use crate::config::{BuildCompileParams, BuildCompiler, OptimizationLevel};
use crate::failure::Failure;
use crate::packages;
use crate::packages::ResolvedDependency;
use crate::paths;
use crate::text;

verus! {

broadcast use vstd::string::group_string_axioms;

/// Whether a build is for development or for use.
#[derive(Debug, Clone, Copy, PartialEq, Eq, Structural)]
pub enum BuildProfile {
    Debug,
    Release,
}

/// Everything that a build depends on.
#[derive(Debug, Clone)]
pub struct BuildPlan {
    pub project_name: String,
    pub cpp_standard: String,
    pub compiler: BuildCompiler,
    pub profile: BuildProfile,
    pub build_threads: usize,
    pub compile_params: BuildCompileParams,
    pub target_dir: String,
    pub sources: Vec<String>,
    pub dependencies: Vec<ResolvedDependency>,
    /// Paths follow the rules of Windows.
    pub windows: bool,
}

/// The parts of a build file that dependencies contribute to.
#[derive(Debug, Clone, Copy, PartialEq, Eq, Structural)]
pub enum Part {
    Subdirectories,
    Headers,
    LibraryDirs,
    Libraries,
    IncludeFlags,
    LinkFlags,
}

/// A program to run, with its arguments.
#[derive(Debug, Clone)]
pub struct CommandSpec {
    pub program: String,
    pub args: Vec<String>,
}

// ---------------------------------------------------------------------------
// Model
// ---------------------------------------------------------------------------

/// The model of a [`BuildPlan`].
#[verifier::ext_equal]
pub struct PlanView {
    pub project_name: Seq<char>,
    pub cpp_standard: Seq<char>,
    pub compiler: BuildCompiler,
    pub profile: BuildProfile,
    pub build_threads: nat,
    pub optimization: Option<OptimizationLevel>,
    pub fast_math: bool,
    pub c_flags: Seq<Seq<char>>,
    pub cxx_flags: Seq<Seq<char>>,
    pub target_dir: Seq<char>,
    pub sources: Seq<Seq<char>>,
    pub dependencies: Seq<packages::DependencyView>,
    pub windows: bool,
}

impl View for BuildPlan {
    type V = PlanView;

    open spec fn view(&self) -> PlanView {
        PlanView {
            project_name: self.project_name@,
            cpp_standard: self.cpp_standard@,
            compiler: self.compiler,
            profile: self.profile,
            build_threads: self.build_threads as nat,
            optimization: self.compile_params.optimization,
            fast_math: self.compile_params.fast_math,
            c_flags: text::texts(self.compile_params.c_flags@),
            cxx_flags: text::texts(self.compile_params.cxx_flags@),
            target_dir: self.target_dir@,
            sources: text::texts(self.sources@),
            dependencies: packages::dependency_views(self.dependencies@),
            windows: self.windows,
        }
    }
}

/// The model of a [`CommandSpec`].
#[verifier::ext_equal]
pub struct CommandView {
    pub program: Seq<char>,
    pub args: Seq<Seq<char>>,
}

impl View for CommandSpec {
    type V = CommandView;

    open spec fn view(&self) -> CommandView {
        CommandView { program: self.program@, args: text::texts(self.args@) }
    }
}

impl CommandSpec {
    /// A copy of the command.
    pub fn copied(&self) -> (r: Self)
        ensures
            r@ == self@,
    {
        CommandSpec { program: self.program.clone(), args: text::copied_texts(&self.args) }
    }
}

/// The models of a list of commands.
pub open spec fn command_views(list: Seq<CommandSpec>) -> Seq<CommandView> {
    list.map_values(|c: CommandSpec| c@)
}

/// The name of a profile.
pub open spec fn profile_name(profile: BuildProfile) -> Seq<char> {
    match profile {
        BuildProfile::Debug => "debug"@,
        BuildProfile::Release => "release"@,
    }
}

/// The name of a profile in CMake.
pub open spec fn cmake_profile_name(profile: BuildProfile) -> Seq<char> {
    match profile {
        BuildProfile::Debug => "Debug"@,
        BuildProfile::Release => "Release"@,
    }
}

/// The name of a compiler.
pub open spec fn compiler_name(compiler: BuildCompiler) -> Seq<char> {
    match compiler {
        BuildCompiler::Gcc => "gcc"@,
        BuildCompiler::Msvc => "msvc"@,
    }
}

/// Where the results of a build go.
pub open spec fn profile_dir(plan: PlanView) -> Seq<char> {
    paths::path_join(plan.windows, plan.target_dir, profile_name(plan.profile))
}

/// The name of the directory in which the build system works.
pub open spec fn build_dir_name(plan: PlanView) -> Seq<char> {
    "cook-build-"@ + compiler_name(plan.compiler)
}

/// Where the build system works.
pub open spec fn build_dir(plan: PlanView) -> Seq<char> {
    paths::path_join(plan.windows, profile_dir(plan), build_dir_name(plan))
}

/// `path` seen from the root, where the directory it is seen from is known.
pub open spec fn from_root(
    windows: bool,
    path: Seq<char>,
    working_dir: Option<Seq<char>>,
) -> Seq<char> {
    match working_dir {
        Some(dir) => paths::path_join(windows, dir, path),
        None => path,
    }
}

/// The arguments by which CMake is told the compiler.
pub open spec fn toolchain_words(compiler: BuildCompiler, windows: bool) -> Seq<Seq<char>> {
    match compiler {
        BuildCompiler::Gcc => (if windows {
            seq!["-G"@, "MinGW Makefiles"@]
        } else {
            Seq::empty()
        }) + seq!["-DCMAKE_C_COMPILER=gcc"@, "-DCMAKE_CXX_COMPILER=g++"@],
        BuildCompiler::Msvc => if windows {
            seq!["-G"@, "Visual Studio 17 2022"@]
        } else {
            Seq::empty()
        },
    }
}

/// The optimization flag of GNU compilers.
pub open spec fn gnu_flag(level: OptimizationLevel) -> Seq<char> {
    match level {
        OptimizationLevel::O0 => "-O0"@,
        OptimizationLevel::O1 => "-O1"@,
        OptimizationLevel::O2 => "-O2"@,
        OptimizationLevel::O3 => "-O3"@,
        OptimizationLevel::Os => "-Os"@,
        OptimizationLevel::Oz => "-Oz"@,
    }
}

/// The optimization flag of a compiler.
pub open spec fn optimization_flag(compiler: BuildCompiler, level: OptimizationLevel) -> Seq<char> {
    match compiler {
        BuildCompiler::Gcc => gnu_flag(level),
        BuildCompiler::Msvc => match level {
            OptimizationLevel::O0 => "/Od"@,
            OptimizationLevel::O1 => "/O1"@,
            OptimizationLevel::O2 => "/O2"@,
            OptimizationLevel::O3 => "/Ox"@,
            OptimizationLevel::Os => "/O1"@,
            OptimizationLevel::Oz => "/O1"@,
        },
    }
}

/// The flag by which a compiler may reorder floating point.
pub open spec fn fast_math_flag(compiler: BuildCompiler) -> Seq<char> {
    match compiler {
        BuildCompiler::Gcc => "-ffast-math"@,
        BuildCompiler::Msvc => "/fp:fast"@,
    }
}

/// The flags that the plan asks for in both languages.
pub open spec fn common_flags(plan: PlanView) -> Seq<Seq<char>> {
    (match plan.optimization {
        Some(level) => seq![optimization_flag(plan.compiler, level)],
        None => Seq::empty(),
    }) + (if plan.fast_math {
        seq![fast_math_flag(plan.compiler)]
    } else {
        Seq::empty()
    })
}

/// Text that may stand between double quotes in CMake.
pub open spec fn cmake_escaped(value: Seq<char>) -> Seq<char> {
    text::replaced(text::replaced(value, '\\', "\\\\"@), '"', "\\\""@)
}

/// The lines by which CMake is told the flags.
pub open spec fn flag_lines(c_flags: Seq<char>, cxx_flags: Seq<char>) -> Seq<char> {
    text::joined(
        (if c_flags.len() > 0 {
            seq!["set(CMAKE_C_FLAGS \"${CMAKE_C_FLAGS} "@ + cmake_escaped(c_flags) + "\")"@]
        } else {
            Seq::empty()
        }) + (if cxx_flags.len() > 0 {
            seq!["set(CMAKE_CXX_FLAGS \"${CMAKE_CXX_FLAGS} "@ + cmake_escaped(cxx_flags) + "\")"@]
        } else {
            Seq::empty()
        }),
        "\n"@,
    )
}

/// A library as it is named in CMake.
pub open spec fn cmake_token(lib: Seq<char>) -> Seq<char> {
    if lib.contains('/') || lib.contains('\\') {
        "\""@ + lib + "\""@
    } else {
        lib
    }
}

/// The line that adds a dependency built by its own `CMakeLists.txt`.
pub open spec fn subdirectory_lines(dep: packages::DependencyView) -> Seq<Seq<char>> {
    if dep.external_build_system is Some {
        Seq::empty()
    } else {
        seq![
            "add_subdirectory(\""@ + dep.root_dir + "\" \"${CMAKE_BINARY_DIR}/deps/"@ + dep.name
                + "\")"@,
        ]
    }
}

/// The lines that tell where an external dependency has its headers.
pub open spec fn header_lines(
    project: Seq<char>,
    dep: packages::DependencyView,
) -> Seq<Seq<char>> {
    if dep.external_build_system is Some {
        text::each(
            dep.exports.include_dirs,
            "target_include_directories("@ + project + " PRIVATE \""@,
            "\")"@,
        )
    } else {
        Seq::empty()
    }
}

/// The lines that tell where an external dependency has its libraries.
pub open spec fn library_dir_lines(
    project: Seq<char>,
    dep: packages::DependencyView,
) -> Seq<Seq<char>> {
    if dep.external_build_system is Some {
        text::each(
            dep.exports.lib_dirs,
            "target_link_directories("@ + project + " PRIVATE \""@,
            "\")"@,
        )
    } else {
        Seq::empty()
    }
}

/// What of a dependency is linked.
pub open spec fn library_words(dep: packages::DependencyView) -> Seq<Seq<char>> {
    if dep.external_build_system is Some {
        dep.exports.libs.map_values(|lib: Seq<char>| cmake_token(lib))
    } else {
        seq![dep.name]
    }
}

/// What the dependencies of `plan` contribute to one part of a build file.
pub open spec fn contributed(part: Part, plan: PlanView) -> Seq<Seq<char>> {
    text::gathered(
        plan.dependencies,
        |dep: packages::DependencyView| contribution(part, plan, dep),
    )
}

/// What one dependency contributes to one part of a build file.
pub open spec fn contribution(
    part: Part,
    plan: PlanView,
    dep: packages::DependencyView,
) -> Seq<Seq<char>> {
    match part {
        Part::Subdirectories => subdirectory_lines(dep),
        Part::Headers => header_lines(plan.project_name, dep),
        Part::LibraryDirs => library_dir_lines(plan.project_name, dep),
        Part::Libraries => library_words(dep),
        Part::IncludeFlags => include_words(dep),
        Part::LinkFlags => link_words(dep, plan.profile),
    }
}

/// The line that links the dependencies, if there is anything to link.
pub open spec fn link_line(plan: PlanView) -> Seq<char> {
    let words = text::joined(contributed(Part::Libraries, plan), " "@);
    if words.len() == 0 {
        Seq::empty()
    } else {
        "target_link_libraries("@ + plan.project_name + " PRIVATE "@ + words + ")"@
    }
}

/// The `CMakeLists.txt` of a project.
pub open spec fn cmake_text(plan: PlanView, working_dir: Option<Seq<char>>) -> Seq<char> {
    let name = plan.project_name;
    let out = paths::normalized(from_root(plan.windows, profile_dir(plan), working_dir));
    "cmake_minimum_required(VERSION 3.15)\nproject("@ + name
        + " C CXX)\n\nset(CMAKE_C_STANDARD 11)\nset(CMAKE_CXX_STANDARD "@ + plan.cpp_standard
        + ")\nset(CMAKE_CXX_STANDARD_REQUIRED ON)\nset(CMAKE_EXPORT_COMPILE_COMMANDS ON)\nset(CMAKE_RUNTIME_OUTPUT_DIRECTORY \""@
        + out + "\")\nset(CMAKE_RUNTIME_OUTPUT_DIRECTORY_DEBUG \""@ + out
        + "\")\nset(CMAKE_RUNTIME_OUTPUT_DIRECTORY_RELEASE \""@ + out
        + "\")\nset(CMAKE_LIBRARY_OUTPUT_DIRECTORY \""@ + out
        + "\")\nset(CMAKE_ARCHIVE_OUTPUT_DIRECTORY \""@ + out + "\")\n\n"@ + flag_lines(
        text::joined(common_flags(plan) + plan.c_flags, " "@),
        text::joined(common_flags(plan) + plan.cxx_flags, " "@),
    ) + "\n\n"@ + text::joined(
        contributed(Part::Subdirectories, plan),
        "\n"@,
    ) + "\n\nadd_executable("@ + name + "\n"@ + text::joined(
        text::each(plan.sources, "    "@, ""@),
        "\n"@,
    ) + "\n)\n\n"@ + text::joined(
        contributed(Part::Headers, plan),
        "\n"@,
    ) + "\n"@ + text::joined(
        contributed(Part::LibraryDirs, plan),
        "\n"@,
    ) + "\n\n"@ + link_line(plan) + "\n"@
}

/// The number of threads that a build may use: one at least.
pub open spec fn thread_words(plan: PlanView) -> Seq<char> {
    text::decimal(
        if plan.build_threads == 0 {
            1
        } else {
            plan.build_threads
        },
    )
}

/// How CMake is made to configure a project.
pub open spec fn cmake_configure(plan: PlanView) -> Seq<CommandView> {
    seq![
        CommandView {
            program: "cmake"@,
            args: seq![
                "-B"@,
                paths::normalized(build_dir(plan)),
                "-S"@,
                "."@,
                "-DCMAKE_BUILD_TYPE="@ + cmake_profile_name(plan.profile),
            ] + toolchain_words(plan.compiler, plan.windows),
        },
    ]
}

/// How CMake is made to build a project.
pub open spec fn cmake_build(plan: PlanView) -> Seq<CommandView> {
    seq![
        CommandView {
            program: "cmake"@,
            args: seq![
                "--build"@,
                paths::normalized(build_dir(plan)),
                "--config"@,
                cmake_profile_name(plan.profile),
                "--parallel"@,
                thread_words(plan),
            ],
        },
    ]
}

/// Where a build with make may leave the program.
pub open spec fn plain_artifacts(plan: PlanView) -> Seq<Seq<char>> {
    let dir = paths::normalized(profile_dir(plan));
    seq![dir + "/"@ + plan.project_name, dir + "/"@ + plan.project_name + ".exe"@]
}

/// Where a build with CMake may leave the program.
pub open spec fn cmake_artifacts(plan: PlanView) -> Seq<Seq<char>> {
    let dir = paths::normalized(profile_dir(plan)) + "/"@ + cmake_profile_name(plan.profile);
    plain_artifacts(plan) + seq![
        dir + "/"@ + plan.project_name,
        dir + "/"@ + plan.project_name + ".exe"@,
    ]
}

/// The object file of the source with the number `i`.
pub open spec fn object_file(plan: PlanView, i: nat) -> Seq<char> {
    paths::normalized(profile_dir(plan)) + "/obj/"@ + text::decimal(i) + ".o"@
}

/// A source file in C.
pub open spec fn is_c_source(source: Seq<char>) -> bool {
    ".c"@.is_suffix_of(text::lowered(source))
}

/// The rule by which make compiles the source with the number `i`.
pub open spec fn compile_rule(plan: PlanView, i: nat) -> Seq<char> {
    let source = plan.sources[i as int];
    object_file(plan, i) + ": "@ + source + "\n\t@$(call MKDIR_P,$(dir $@))\n\t"@ + (if is_c_source(
        source,
    ) {
        "$(CC) $(CFLAGS)"@
    } else {
        "$(CXX) $(CXXFLAGS)"@
    }) + " $(INCLUDES) -c $< -o $@"@
}

/// The flags that tell where a dependency has its headers.
pub open spec fn include_words(dep: packages::DependencyView) -> Seq<Seq<char>> {
    if dep.external_build_system is Some {
        text::each(dep.exports.include_dirs, "-I"@, ""@)
    } else {
        seq!["-I"@ + dep.root_dir + "/include"@]
    }
}

/// A library as it is named to the linker.
pub open spec fn make_token(lib: Seq<char>) -> Seq<char> {
    let lower = text::lowered(lib);
    if "-"@.is_prefix_of(lib) || lib.contains('/') || lib.contains('\\') || "."@.is_prefix_of(lib)
        || ".a"@.is_suffix_of(lower) || ".so"@.is_suffix_of(lower) || ".dylib"@.is_suffix_of(lower)
        || ".lib"@.is_suffix_of(lower) {
        lib
    } else {
        "-l"@ + lib
    }
}

/// The flags that link a dependency.
pub open spec fn link_words(dep: packages::DependencyView, profile: BuildProfile) -> Seq<
    Seq<char>,
> {
    if dep.external_build_system is Some {
        text::each(dep.exports.lib_dirs, "-L"@, ""@) + dep.exports.libs.map_values(
            |lib: Seq<char>| make_token(lib),
        )
    } else {
        seq!["-L"@ + dep.root_dir + "/target/"@ + profile_name(profile), "-l"@ + dep.name]
    }
}

/// The flags for C with make.
pub open spec fn make_c_flags(plan: PlanView) -> Seq<Seq<char>> {
    seq![
        match plan.optimization {
            Some(level) => gnu_flag(level),
            None => match plan.profile {
                BuildProfile::Debug => "-O0"@,
                BuildProfile::Release => "-O3"@,
            },
        },
        match plan.profile {
            BuildProfile::Debug => "-g"@,
            BuildProfile::Release => "-DNDEBUG"@,
        },
        "-Wall"@,
    ] + (if plan.fast_math {
        seq!["-ffast-math"@]
    } else {
        Seq::empty()
    }) + plan.c_flags
}

/// The flags for C++ with make.
pub open spec fn make_cxx_flags(plan: PlanView) -> Seq<Seq<char>> {
    make_c_flags(plan).push("-std=c++"@ + plan.cpp_standard) + plan.cxx_flags
}

/// The `Makefile` of a project.
pub open spec fn make_text(plan: PlanView) -> Seq<char> {
    let dir = paths::normalized(profile_dir(plan));
    "CC ?= gcc\nCXX ?= g++\nCFLAGS ?= "@ + text::joined(make_c_flags(plan), " "@)
        + "\nCXXFLAGS ?= "@ + text::joined(make_cxx_flags(plan), " "@) + "\nINCLUDES := "@
        + text::joined(
        contributed(Part::IncludeFlags, plan),
        " "@,
    ) + "\nDEP_LINKS := "@ + text::joined(
        contributed(Part::LinkFlags, plan),
        " "@,
    ) + "\nOUTPUT := "@ + dir + "/"@ + plan.project_name + "\nOBJECTS := "@ + text::joined(
        Seq::new(plan.sources.len(), |i: int| object_file(plan, i as nat)),
        " "@,
    )
        + "\n\nifeq ($(OS),Windows_NT)\nMKDIR_P = if not exist \"$(subst /,\\,$(patsubst %/,%,$(1)))\" mkdir \"$(subst /,\\,$(patsubst %/,%,$(1)))\"\nRM_RF = if exist \"$(subst /,\\,$(patsubst %/,%,$(1)))\" rmdir /S /Q \"$(subst /,\\,$(patsubst %/,%,$(1)))\"\nelse\nMKDIR_P = mkdir -p \"$(1)\"\nRM_RF = rm -rf \"$(1)\"\nendif\n\nall: $(OUTPUT)\n\n$(OUTPUT): $(OBJECTS)\n\t@$(call MKDIR_P,$(dir $@))\n\t$(CXX) $(OBJECTS) $(DEP_LINKS) -o $@\n\n"@
        + text::joined(
        Seq::new(plan.sources.len(), |i: int| compile_rule(plan, i as nat)),
        "\n\n"@,
    ) + "\n\nclean:\n\t@$(call RM_RF,"@ + dir + ")\n"@
}

/// Where the `Makefile` of a project stands.
pub open spec fn makefile_path(plan: PlanView) -> Seq<char> {
    paths::normalized(paths::path_join(plan.windows, profile_dir(plan), "Makefile"@))
}

/// How make is made to build a project.
pub open spec fn make_build(plan: PlanView) -> Seq<CommandView> {
    seq![
        CommandView {
            program: "make"@,
            args: seq!["-f"@, makefile_path(plan), "-j"@ + thread_words(plan), "all"@],
        },
    ]
}

/// A rendered build file, or the complaint that there is nothing to build.
pub open spec fn unless_no_sources(plan: PlanView, rendered: Seq<char>) -> Result<
    Seq<char>,
    Seq<char>,
> {
    if plan.sources.len() == 0 {
        Err("no source files were discovered under src/"@)
    } else {
        Ok(rendered)
    }
}

// ---------------------------------------------------------------------------
// Names and directories
// ---------------------------------------------------------------------------

impl BuildProfile {
    /// The name of the profile.
    pub fn as_str(self) -> (r: &'static str)
        ensures
            r@ == profile_name(self),
    {
        match self {
            BuildProfile::Debug => "debug",
            BuildProfile::Release => "release",
        }
    }

    /// The name of the profile in CMake.
    pub fn cmake_config_name(self) -> (r: &'static str)
        ensures
            r@ == cmake_profile_name(self),
    {
        match self {
            BuildProfile::Debug => "Debug",
            BuildProfile::Release => "Release",
        }
    }
}

/// The name of a compiler.
pub fn compiler_id(compiler: BuildCompiler) -> (r: &'static str)
    ensures
        r@ == compiler_name(compiler),
{
    match compiler {
        BuildCompiler::Gcc => "gcc",
        BuildCompiler::Msvc => "msvc",
    }
}

impl BuildPlan {
    /// Where the results of the build go.
    pub fn profile_target_dir(&self) -> (r: String)
        ensures
            r@ == profile_dir(self@),
    {
        paths::join(self.windows, self.target_dir.as_str(), self.profile.as_str())
    }

    /// Where the build system works.
    pub fn backend_build_dir(&self) -> (r: String)
        ensures
            r@ == build_dir(self@),
    {
        let mut name = "cook-build-".to_owned();
        name.append(compiler_id(self.compiler));
        paths::join(self.windows, self.profile_target_dir().as_str(), name.as_str())
    }
}

/// A path seen from the root.
pub fn absolute_path(path: &str, working_dir: Option<&str>, windows: bool) -> (r: String)
    ensures
        r@ == from_root(
            windows,
            path@,
            match working_dir {
                Some(dir) => Some(dir@),
                None => None,
            },
        ),
{
    match working_dir {
        Some(dir) => paths::join(windows, dir, path),
        None => path.to_owned(),
    }
}

// ---------------------------------------------------------------------------
// Flags
// ---------------------------------------------------------------------------

/// The arguments by which CMake is told the compiler.
pub fn cmake_toolchain_args(compiler: BuildCompiler, windows: bool) -> (r: Vec<String>)
    ensures
        text::texts(r@) == toolchain_words(compiler, windows),
{
    let mut args: Vec<String> = Vec::new();
    match compiler {
        BuildCompiler::Gcc => {
            if windows {
                text::push_text(&mut args, "-G");
                text::push_text(&mut args, "MinGW Makefiles");
            }
            text::push_text(&mut args, "-DCMAKE_C_COMPILER=gcc");
            text::push_text(&mut args, "-DCMAKE_CXX_COMPILER=g++");
        },
        BuildCompiler::Msvc => {
            if windows {
                text::push_text(&mut args, "-G");
                text::push_text(&mut args, "Visual Studio 17 2022");
            }
        },
    }
    assert(text::texts(args@) =~= toolchain_words(compiler, windows));
    args
}

fn gnu_optimization_flag(level: OptimizationLevel) -> (r: &'static str)
    ensures
        r@ == gnu_flag(level),
{
    match level {
        OptimizationLevel::O0 => "-O0",
        OptimizationLevel::O1 => "-O1",
        OptimizationLevel::O2 => "-O2",
        OptimizationLevel::O3 => "-O3",
        OptimizationLevel::Os => "-Os",
        OptimizationLevel::Oz => "-Oz",
    }
}

fn default_gnu_optimization_flag(profile: BuildProfile) -> (r: &'static str)
    ensures
        r@ == (match profile {
            BuildProfile::Debug => "-O0"@,
            BuildProfile::Release => "-O3"@,
        }),
{
    match profile {
        BuildProfile::Debug => "-O0",
        BuildProfile::Release => "-O3",
    }
}

fn compiler_optimization_flag(compiler: BuildCompiler, level: OptimizationLevel) -> (r:
    &'static str)
    ensures
        r@ == optimization_flag(compiler, level),
{
    match compiler {
        BuildCompiler::Gcc => gnu_optimization_flag(level),
        BuildCompiler::Msvc => match level {
            OptimizationLevel::O0 => "/Od",
            OptimizationLevel::O1 => "/O1",
            OptimizationLevel::O2 => "/O2",
            OptimizationLevel::O3 => "/Ox",
            OptimizationLevel::Os => "/O1",
            OptimizationLevel::Oz => "/O1",
        },
    }
}

fn compiler_fast_math_flag(compiler: BuildCompiler) -> (r: &'static str)
    ensures
        r@ == fast_math_flag(compiler),
{
    match compiler {
        BuildCompiler::Gcc => "-ffast-math",
        BuildCompiler::Msvc => "/fp:fast",
    }
}

fn cmake_escape(value: &str) -> (r: String)
    ensures
        r@ == cmake_escaped(value@),
{
    text::replace(text::replace(value, '\\', "\\\\").as_str(), '"', "\\\"")
}

/// The flags for C and for C++ with CMake.
fn cmake_compile_flags(plan: &BuildPlan) -> (r: (String, String))
    ensures
        r.0@ == text::joined(common_flags(plan@) + plan@.c_flags, " "@),
        r.1@ == text::joined(common_flags(plan@) + plan@.cxx_flags, " "@),
{
    let mut c_flags: Vec<String> = Vec::new();
    if let Some(level) = plan.compile_params.optimization {
        text::push_text(&mut c_flags, compiler_optimization_flag(plan.compiler, level));
    }
    if plan.compile_params.fast_math {
        text::push_text(&mut c_flags, compiler_fast_math_flag(plan.compiler));
    }
    assert(text::texts(c_flags@) =~= common_flags(plan@));
    let mut cxx_flags = text::copied_texts(&c_flags);
    text::push_texts(&mut c_flags, &plan.compile_params.c_flags);
    text::push_texts(&mut cxx_flags, &plan.compile_params.cxx_flags);
    (text::join(&c_flags, " "), text::join(&cxx_flags, " "))
}

fn render_cmake_compile_flag_lines(c_flags: &str, cxx_flags: &str) -> (r: String)
    ensures
        r@ == flag_lines(c_flags@, cxx_flags@),
{
    let mut lines: Vec<String> = Vec::new();
    if !c_flags.is_empty() {
        let mut line = "set(CMAKE_C_FLAGS \"${CMAKE_C_FLAGS} ".to_owned();
        line.append(cmake_escape(c_flags).as_str());
        line.append("\")");
        text::push_text(&mut lines, line.as_str());
    }
    if !cxx_flags.is_empty() {
        let mut line = "set(CMAKE_CXX_FLAGS \"${CMAKE_CXX_FLAGS} ".to_owned();
        line.append(cmake_escape(cxx_flags).as_str());
        line.append("\")");
        text::push_text(&mut lines, line.as_str());
    }
    assert(text::texts(lines@) =~= (if c_flags@.len() > 0 {
        seq!["set(CMAKE_C_FLAGS \"${CMAKE_C_FLAGS} "@ + cmake_escaped(c_flags@) + "\")"@]
    } else {
        Seq::empty()
    }) + (if cxx_flags@.len() > 0 {
        seq!["set(CMAKE_CXX_FLAGS \"${CMAKE_CXX_FLAGS} "@ + cmake_escaped(cxx_flags@) + "\")"@]
    } else {
        Seq::empty()
    }));
    text::join(&lines, "\n")
}

/// The flags for C and for C++ with make.
fn make_profile_flags(plan: &BuildPlan) -> (r: (String, String))
    ensures
        r.0@ == text::joined(make_c_flags(plan@), " "@),
        r.1@ == text::joined(make_cxx_flags(plan@), " "@),
{
    let optimization = match plan.compile_params.optimization {
        Some(level) => gnu_optimization_flag(level),
        None => default_gnu_optimization_flag(plan.profile),
    };
    let mut c_flags: Vec<String> = Vec::new();
    text::push_text(&mut c_flags, optimization);
    match plan.profile {
        BuildProfile::Debug => {
            text::push_text(&mut c_flags, "-g");
        },
        BuildProfile::Release => {
            text::push_text(&mut c_flags, "-DNDEBUG");
        },
    }
    text::push_text(&mut c_flags, "-Wall");
    if plan.compile_params.fast_math {
        text::push_text(&mut c_flags, "-ffast-math");
    }
    text::push_texts(&mut c_flags, &plan.compile_params.c_flags);
    assert(text::texts(c_flags@) =~= make_c_flags(plan@));
    let mut cxx_flags = text::copied_texts(&c_flags);
    let mut standard = "-std=c++".to_owned();
    standard.append(plan.cpp_standard.as_str());
    text::push_text(&mut cxx_flags, standard.as_str());
    text::push_texts(&mut cxx_flags, &plan.compile_params.cxx_flags);
    assert(text::texts(cxx_flags@) =~= make_cxx_flags(plan@));
    (text::join(&c_flags, " "), text::join(&cxx_flags, " "))
}

fn cmake_link_token(lib: &str) -> (r: String)
    ensures
        r@ == cmake_token(lib@),
{
    if text::has_char(lib, '/') || text::has_char(lib, '\\') {
        let mut out = "\"".to_owned();
        out.append(lib);
        out.append("\"");
        out
    } else {
        lib.to_owned()
    }
}

fn make_link_token(lib: &str) -> (r: String)
    ensures
        r@ == make_token(lib@),
{
    let lower = text::to_lower(lib);
    if text::starts_with(lib, "-") || text::has_char(lib, '/') || text::has_char(lib, '\\')
        || text::starts_with(lib, ".") || text::ends_with(lower.as_str(), ".a") || text::ends_with(
        lower.as_str(),
        ".so",
    ) || text::ends_with(lower.as_str(), ".dylib") || text::ends_with(lower.as_str(), ".lib") {
        lib.to_owned()
    } else {
        let mut out = "-l".to_owned();
        out.append(lib);
        out
    }
}

// ---------------------------------------------------------------------------
// What the dependencies contribute
// ---------------------------------------------------------------------------

fn subdirectories_of(dep: &ResolvedDependency) -> (r: Vec<String>)
    ensures
        text::texts(r@) == subdirectory_lines(dep@),
{
    let mut out: Vec<String> = Vec::new();
    if dep.external_build_system.is_none() {
        let mut line = "add_subdirectory(\"".to_owned();
        line.append(dep.root_dir.as_str());
        line.append("\" \"${CMAKE_BINARY_DIR}/deps/");
        line.append(dep.name.as_str());
        line.append("\")");
        text::push_text(&mut out, line.as_str());
    }
    assert(text::texts(out@) =~= subdirectory_lines(dep@));
    out
}

fn headers_of(project: &str, dep: &ResolvedDependency) -> (r: Vec<String>)
    ensures
        text::texts(r@) == header_lines(project@, dep@),
{
    if dep.external_build_system.is_some() {
        let mut before = "target_include_directories(".to_owned();
        before.append(project);
        before.append(" PRIVATE \"");
        text::wrap_each(&dep.exports.include_dirs, before.as_str(), "\")")
    } else {
        let out: Vec<String> = Vec::new();
        assert(text::texts(out@) =~= Seq::empty());
        out
    }
}

fn library_dirs_of(project: &str, dep: &ResolvedDependency) -> (r: Vec<String>)
    ensures
        text::texts(r@) == library_dir_lines(project@, dep@),
{
    if dep.external_build_system.is_some() {
        let mut before = "target_link_directories(".to_owned();
        before.append(project);
        before.append(" PRIVATE \"");
        text::wrap_each(&dep.exports.lib_dirs, before.as_str(), "\")")
    } else {
        let out: Vec<String> = Vec::new();
        assert(text::texts(out@) =~= Seq::empty());
        out
    }
}

fn libraries_of(dep: &ResolvedDependency) -> (r: Vec<String>)
    ensures
        text::texts(r@) == library_words(dep@),
{
    let mut out: Vec<String> = Vec::new();
    if dep.external_build_system.is_some() {
        let mut i: usize = 0;
        while i < dep.exports.libs.len()
            invariant
                i <= dep.exports.libs@.len(),
                out@.len() == i,
                forall|j: int|
                    0 <= j < i ==> #[trigger] out@[j]@ == cmake_token(dep.exports.libs@[j]@),
            decreases dep.exports.libs.len() - i,
        {
            out.push(cmake_link_token(dep.exports.libs[i].as_str()));
            i += 1;
        }
    } else {
        text::push_text(&mut out, dep.name.as_str());
    }
    assert(text::texts(out@) =~= library_words(dep@));
    out
}

/// The flags that tell where a dependency has its headers.
fn include_flags_for_dependency(dep: &ResolvedDependency) -> (r: Vec<String>)
    ensures
        text::texts(r@) == include_words(dep@),
{
    if dep.external_build_system.is_some() {
        text::wrap_each(&dep.exports.include_dirs, "-I", "")
    } else {
        let mut flag = "-I".to_owned();
        flag.append(dep.root_dir.as_str());
        flag.append("/include");
        let mut out: Vec<String> = Vec::new();
        text::push_text(&mut out, flag.as_str());
        assert(text::texts(out@) =~= include_words(dep@));
        out
    }
}

/// The flags that link a dependency.
fn link_flags_for_dependency(dep: &ResolvedDependency, profile: BuildProfile) -> (r: Vec<String>)
    ensures
        text::texts(r@) == link_words(dep@, profile),
{
    if dep.external_build_system.is_some() {
        let mut out = text::wrap_each(&dep.exports.lib_dirs, "-L", "");
        let mut libs: Vec<String> = Vec::new();
        let mut i: usize = 0;
        while i < dep.exports.libs.len()
            invariant
                i <= dep.exports.libs@.len(),
                libs@.len() == i,
                forall|j: int|
                    0 <= j < i ==> #[trigger] libs@[j]@ == make_token(dep.exports.libs@[j]@),
            decreases dep.exports.libs.len() - i,
        {
            libs.push(make_link_token(dep.exports.libs[i].as_str()));
            i += 1;
        }
        assert(text::texts(libs@) =~= dep@.exports.libs.map_values(
            |lib: Seq<char>| make_token(lib),
        ));
        text::push_texts(&mut out, &libs);
        out
    } else {
        let mut dir = "-L".to_owned();
        dir.append(dep.root_dir.as_str());
        dir.append("/target/");
        dir.append(profile.as_str());
        let mut lib = "-l".to_owned();
        lib.append(dep.name.as_str());
        let mut out: Vec<String> = Vec::new();
        text::push_text(&mut out, dir.as_str());
        text::push_text(&mut out, lib.as_str());
        assert(text::texts(out@) =~= link_words(dep@, profile));
        out
    }
}

fn contribute(part: Part, plan: &BuildPlan, dep: &ResolvedDependency) -> (r: Vec<String>)
    ensures
        text::texts(r@) == contribution(part, plan@, dep@),
{
    let project = plan.project_name.as_str();
    match part {
        Part::Subdirectories => subdirectories_of(dep),
        Part::Headers => headers_of(project, dep),
        Part::LibraryDirs => library_dirs_of(project, dep),
        Part::Libraries => libraries_of(dep),
        Part::IncludeFlags => include_flags_for_dependency(dep),
        Part::LinkFlags => link_flags_for_dependency(dep, plan.profile),
    }
}

/// What the dependencies of a plan contribute to one part of a build file, with
/// `sep` in between.
fn join_contributions(part: Part, plan: &BuildPlan, sep: &str) -> (r: String)
    ensures
        r@ == text::joined(contributed(part, plan@), sep@),
{
    let ghost all = plan@.dependencies;
    let ghost f = |dep: packages::DependencyView| contribution(part, plan@, dep);
    let mut out: Vec<String> = Vec::new();
    let mut i: usize = 0;
    assert(text::texts(out@) =~= text::gathered(all.take(0), f));
    while i < plan.dependencies.len()
        invariant
            i <= plan.dependencies@.len(),
            all == plan@.dependencies,
            f == (|dep: packages::DependencyView| contribution(part, plan@, dep)),
            text::texts(out@) == text::gathered(all.take(i as int), f),
        decreases plan.dependencies.len() - i,
    {
        let more = contribute(part, plan, &plan.dependencies[i]);
        assert(all.take(i + 1).drop_last() == all.take(i as int));
        assert(all.take(i + 1).last() == plan.dependencies@[i as int]@);
        text::push_texts(&mut out, &more);
        i += 1;
    }
    assert(all.take(all.len() as int) == all);
    text::join(&out, sep)
}

// ---------------------------------------------------------------------------
// The backends
// ---------------------------------------------------------------------------

/// A result as its model.
pub open spec fn outcome(r: Result<String, Failure>) -> Result<Seq<char>, Seq<char>> {
    match r {
        Ok(s) => Ok(s@),
        Err(e) => Err(e@),
    }
}

/// A build system that a project can be built with.
pub trait BuildBackend {
    /// The name of the build system.
    spec fn id_text(&self) -> Seq<char>;

    /// Where the build file stands.
    spec fn manifest_text(&self, plan: PlanView) -> Seq<char>;

    /// What the build file holds.
    spec fn rendered(&self, plan: PlanView, working_dir: Option<Seq<char>>) -> Seq<char>;

    /// How the project is configured.
    spec fn configuring(&self, plan: PlanView) -> Seq<CommandView>;

    /// How the project is built.
    spec fn building(&self, plan: PlanView) -> Seq<CommandView>;

    /// Where the program may be found after the build.
    spec fn artifacts(&self, plan: PlanView) -> Seq<Seq<char>>;

    /// The name of the build system.
    fn backend_id(&self) -> (r: &'static str)
        ensures
            r@ == self.id_text(),
    ;

    /// Where to write the build file.
    fn manifest_path(&self, plan: &BuildPlan) -> (r: String)
        ensures
            r@ == self.manifest_text(plan@),
    ;

    /// The build file, for a project in the directory `working_dir`.
    fn render(&self, plan: &BuildPlan, working_dir: Option<&str>) -> (r: Result<String, Failure>)
        ensures
            outcome(r) == unless_no_sources(
                plan@,
                self.rendered(
                    plan@,
                    match working_dir {
                        Some(dir) => Some(dir@),
                        None => None,
                    },
                ),
            ),
    ;

    /// The commands that configure the project.
    fn configure_steps(&self, plan: &BuildPlan) -> (r: Vec<CommandSpec>)
        ensures
            command_views(r@) == self.configuring(plan@),
    ;

    /// The commands that build the project.
    fn build_steps(&self, plan: &BuildPlan) -> (r: Vec<CommandSpec>)
        ensures
            command_views(r@) == self.building(plan@),
    ;

    /// Where to look for the program after the build.
    fn artifact_candidates(&self, plan: &BuildPlan) -> (r: Vec<String>)
        ensures
            text::texts(r@) == self.artifacts(plan@),
    ;
}

fn single_command(program: &str, args: Vec<String>) -> (r: Vec<CommandSpec>)
    ensures
        command_views(r@) == seq![CommandView { program: program@, args: text::texts(args@) }],
{
    let ghost words = text::texts(args@);
    let mut out: Vec<CommandSpec> = Vec::new();
    out.push(CommandSpec { program: program.to_owned(), args });
    assert(command_views(out@) =~= seq![CommandView { program: program@, args: words }]);
    out
}

fn no_sources() -> (r: Failure)
    ensures
        r@ == "no source files were discovered under src/"@,
{
    Failure::new("no source files were discovered under src/".to_owned())
}

fn threads(plan: &BuildPlan) -> (r: String)
    ensures
        r@ == thread_words(plan@),
{
    if plan.build_threads == 0 {
        text::to_decimal(1)
    } else {
        text::to_decimal(plan.build_threads as u64)
    }
}

fn program_in(dir: &str, name: &str, suffix: &str) -> (r: String)
    ensures
        r@ == dir@ + "/"@ + name@ + suffix@,
{
    let mut out = dir.to_owned();
    out.append("/");
    out.append(name);
    out.append(suffix);
    out
}

fn plain_candidates(plan: &BuildPlan) -> (r: Vec<String>)
    ensures
        text::texts(r@) == plain_artifacts(plan@),
{
    let dir = paths::normalize_path(plan.profile_target_dir().as_str());
    let name = plan.project_name.as_str();
    let mut out: Vec<String> = Vec::new();
    proof {
        reveal_strlit("");
    }
    text::push_text(&mut out, program_in(dir.as_str(), name, "").as_str());
    text::push_text(&mut out, program_in(dir.as_str(), name, ".exe").as_str());
    assert(dir@ + "/"@ + name@ + ""@ =~= dir@ + "/"@ + name@);
    assert(text::texts(out@) =~= plain_artifacts(plan@));
    out
}

/// Building with CMake.
pub struct CmakeBackend;

impl BuildBackend for CmakeBackend {
    open spec fn id_text(&self) -> Seq<char> {
        "cmake"@
    }

    open spec fn manifest_text(&self, plan: PlanView) -> Seq<char> {
        "CMakeLists.txt"@
    }

    open spec fn rendered(&self, plan: PlanView, working_dir: Option<Seq<char>>) -> Seq<char> {
        cmake_text(plan, working_dir)
    }

    open spec fn configuring(&self, plan: PlanView) -> Seq<CommandView> {
        cmake_configure(plan)
    }

    open spec fn building(&self, plan: PlanView) -> Seq<CommandView> {
        cmake_build(plan)
    }

    open spec fn artifacts(&self, plan: PlanView) -> Seq<Seq<char>> {
        cmake_artifacts(plan)
    }

    fn backend_id(&self) -> (r: &'static str) {
        "cmake"
    }

    fn manifest_path(&self, plan: &BuildPlan) -> (r: String) {
        "CMakeLists.txt".to_owned()
    }

    fn render(&self, plan: &BuildPlan, working_dir: Option<&str>) -> (r: Result<String, Failure>) {
        if plan.sources.len() == 0 {
            return Err(no_sources());
        }
        let name = plan.project_name.as_str();
        let source_block = text::join(&text::wrap_each(&plan.sources, "    ", ""), "\n");
        let libraries = join_contributions(Part::Libraries, plan, " ");
        let mut link = String::new();
        if !libraries.as_str().is_empty() {
            link = "target_link_libraries(".to_owned();
            link.append(name);
            link.append(" PRIVATE ");
            link.append(libraries.as_str());
            link.append(")");
        }
        assert(link@ =~= link_line(plan@));
        let (c_flags, cxx_flags) = cmake_compile_flags(plan);
        let output = paths::normalize_path(
            absolute_path(
                plan.profile_target_dir().as_str(),
                working_dir,
                plan.windows,
            ).as_str(),
        );
        let mut out = "cmake_minimum_required(VERSION 3.15)\nproject(".to_owned();
        out.append(name);
        out.append(" C CXX)\n\nset(CMAKE_C_STANDARD 11)\nset(CMAKE_CXX_STANDARD ");
        out.append(plan.cpp_standard.as_str());
        out.append(
            ")\nset(CMAKE_CXX_STANDARD_REQUIRED ON)\nset(CMAKE_EXPORT_COMPILE_COMMANDS ON)\nset(CMAKE_RUNTIME_OUTPUT_DIRECTORY \"",
        );
        out.append(output.as_str());
        out.append("\")\nset(CMAKE_RUNTIME_OUTPUT_DIRECTORY_DEBUG \"");
        out.append(output.as_str());
        out.append("\")\nset(CMAKE_RUNTIME_OUTPUT_DIRECTORY_RELEASE \"");
        out.append(output.as_str());
        out.append("\")\nset(CMAKE_LIBRARY_OUTPUT_DIRECTORY \"");
        out.append(output.as_str());
        out.append("\")\nset(CMAKE_ARCHIVE_OUTPUT_DIRECTORY \"");
        out.append(output.as_str());
        out.append("\")\n\n");
        out.append(render_cmake_compile_flag_lines(c_flags.as_str(), cxx_flags.as_str()).as_str());
        out.append("\n\n");
        out.append(join_contributions(Part::Subdirectories, plan, "\n").as_str());
        out.append("\n\nadd_executable(");
        out.append(name);
        out.append("\n");
        out.append(source_block.as_str());
        out.append("\n)\n\n");
        out.append(join_contributions(Part::Headers, plan, "\n").as_str());
        out.append("\n");
        out.append(join_contributions(Part::LibraryDirs, plan, "\n").as_str());
        out.append("\n\n");
        out.append(link.as_str());
        out.append("\n");
        Ok(out)
    }

    fn configure_steps(&self, plan: &BuildPlan) -> (r: Vec<CommandSpec>) {
        let mut build_type = "-DCMAKE_BUILD_TYPE=".to_owned();
        build_type.append(plan.profile.cmake_config_name());
        let mut args: Vec<String> = Vec::new();
        text::push_text(&mut args, "-B");
        text::push_text(
            &mut args,
            paths::normalize_path(plan.backend_build_dir().as_str()).as_str(),
        );
        text::push_text(&mut args, "-S");
        text::push_text(&mut args, ".");
        text::push_text(&mut args, build_type.as_str());
        text::push_texts(&mut args, &cmake_toolchain_args(plan.compiler, plan.windows));
        assert(text::texts(args@) =~= cmake_configure(plan@)[0].args);
        let out = single_command("cmake", args);
        assert(command_views(out@) =~= cmake_configure(plan@));
        out
    }

    fn build_steps(&self, plan: &BuildPlan) -> (r: Vec<CommandSpec>) {
        let mut args: Vec<String> = Vec::new();
        text::push_text(&mut args, "--build");
        text::push_text(
            &mut args,
            paths::normalize_path(plan.backend_build_dir().as_str()).as_str(),
        );
        text::push_text(&mut args, "--config");
        text::push_text(&mut args, plan.profile.cmake_config_name());
        text::push_text(&mut args, "--parallel");
        text::push_text(&mut args, threads(plan).as_str());
        assert(text::texts(args@) =~= cmake_build(plan@)[0].args);
        let out = single_command("cmake", args);
        assert(command_views(out@) =~= cmake_build(plan@));
        out
    }

    fn artifact_candidates(&self, plan: &BuildPlan) -> (r: Vec<String>) {
        let mut dir = paths::normalize_path(plan.profile_target_dir().as_str());
        dir.append("/");
        dir.append(plan.profile.cmake_config_name());
        let name = plan.project_name.as_str();
        let mut out = plain_candidates(plan);
        proof {
            reveal_strlit("");
        }
        text::push_text(&mut out, program_in(dir.as_str(), name, "").as_str());
        text::push_text(&mut out, program_in(dir.as_str(), name, ".exe").as_str());
        assert(dir@ + "/"@ + name@ + ""@ =~= dir@ + "/"@ + name@);
        assert(text::texts(out@) =~= cmake_artifacts(plan@));
        out
    }
}

fn object_name(plan: &BuildPlan, index: usize) -> (r: String)
    ensures
        r@ == object_file(plan@, index as nat),
{
    let mut out = paths::normalize_path(plan.profile_target_dir().as_str());
    out.append("/obj/");
    out.append(text::to_decimal(index as u64).as_str());
    out.append(".o");
    out
}

fn rule_for_source(plan: &BuildPlan, index: usize) -> (r: String)
    requires
        index < plan.sources@.len(),
    ensures
        r@ == compile_rule(plan@, index as nat),
{
    let source = plan.sources[index].as_str();
    assert(plan@.sources[index as int] == source@);
    let mut out = object_name(plan, index);
    out.append(": ");
    out.append(source);
    out.append("\n\t@$(call MKDIR_P,$(dir $@))\n\t");
    if text::ends_with(text::to_lower(source).as_str(), ".c") {
        out.append("$(CC) $(CFLAGS)");
    } else {
        out.append("$(CXX) $(CXXFLAGS)");
    }
    out.append(" $(INCLUDES) -c $< -o $@");
    out
}

/// Building with make.
pub struct MakeBackend;

impl BuildBackend for MakeBackend {
    open spec fn id_text(&self) -> Seq<char> {
        "make"@
    }

    open spec fn manifest_text(&self, plan: PlanView) -> Seq<char> {
        makefile_path(plan)
    }

    open spec fn rendered(&self, plan: PlanView, working_dir: Option<Seq<char>>) -> Seq<char> {
        make_text(plan)
    }

    open spec fn configuring(&self, plan: PlanView) -> Seq<CommandView> {
        Seq::empty()
    }

    open spec fn building(&self, plan: PlanView) -> Seq<CommandView> {
        make_build(plan)
    }

    open spec fn artifacts(&self, plan: PlanView) -> Seq<Seq<char>> {
        plain_artifacts(plan)
    }

    fn backend_id(&self) -> (r: &'static str) {
        "make"
    }

    fn manifest_path(&self, plan: &BuildPlan) -> (r: String) {
        let dir = plan.profile_target_dir();
        paths::normalize_path(paths::join(plan.windows, dir.as_str(), "Makefile").as_str())
    }

    fn render(&self, plan: &BuildPlan, working_dir: Option<&str>) -> (r: Result<String, Failure>) {
        if plan.sources.len() == 0 {
            return Err(no_sources());
        }
        let dir = paths::normalize_path(plan.profile_target_dir().as_str());
        let mut object_files: Vec<String> = Vec::new();
        let mut compile_rules: Vec<String> = Vec::new();
        let mut i: usize = 0;
        while i < plan.sources.len()
            invariant
                i <= plan.sources@.len(),
                object_files@.len() == i,
                compile_rules@.len() == i,
                forall|j: int|
                    0 <= j < i ==> #[trigger] object_files@[j]@ == object_file(plan@, j as nat),
                forall|j: int|
                    0 <= j < i ==> #[trigger] compile_rules@[j]@ == compile_rule(plan@, j as nat),
            decreases plan.sources.len() - i,
        {
            object_files.push(object_name(plan, i));
            compile_rules.push(rule_for_source(plan, i));
            i += 1;
        }
        assert(text::texts(object_files@) =~= Seq::new(
            plan@.sources.len(),
            |i: int| object_file(plan@, i as nat),
        ));
        assert(text::texts(compile_rules@) =~= Seq::new(
            plan@.sources.len(),
            |i: int| compile_rule(plan@, i as nat),
        ));
        let (c_flags, cxx_flags) = make_profile_flags(plan);
        let mut out = "CC ?= gcc\nCXX ?= g++\nCFLAGS ?= ".to_owned();
        out.append(c_flags.as_str());
        out.append("\nCXXFLAGS ?= ");
        out.append(cxx_flags.as_str());
        out.append("\nINCLUDES := ");
        out.append(join_contributions(Part::IncludeFlags, plan, " ").as_str());
        out.append("\nDEP_LINKS := ");
        out.append(join_contributions(Part::LinkFlags, plan, " ").as_str());
        out.append("\nOUTPUT := ");
        out.append(dir.as_str());
        out.append("/");
        out.append(plan.project_name.as_str());
        out.append("\nOBJECTS := ");
        out.append(text::join(&object_files, " ").as_str());
        out.append(
            "\n\nifeq ($(OS),Windows_NT)\nMKDIR_P = if not exist \"$(subst /,\\,$(patsubst %/,%,$(1)))\" mkdir \"$(subst /,\\,$(patsubst %/,%,$(1)))\"\nRM_RF = if exist \"$(subst /,\\,$(patsubst %/,%,$(1)))\" rmdir /S /Q \"$(subst /,\\,$(patsubst %/,%,$(1)))\"\nelse\nMKDIR_P = mkdir -p \"$(1)\"\nRM_RF = rm -rf \"$(1)\"\nendif\n\nall: $(OUTPUT)\n\n$(OUTPUT): $(OBJECTS)\n\t@$(call MKDIR_P,$(dir $@))\n\t$(CXX) $(OBJECTS) $(DEP_LINKS) -o $@\n\n",
        );
        out.append(text::join(&compile_rules, "\n\n").as_str());
        out.append("\n\nclean:\n\t@$(call RM_RF,");
        out.append(dir.as_str());
        out.append(")\n");
        Ok(out)
    }

    fn configure_steps(&self, plan: &BuildPlan) -> (r: Vec<CommandSpec>) {
        let out: Vec<CommandSpec> = Vec::new();
        assert(command_views(out@) =~= Seq::empty());
        out
    }

    fn build_steps(&self, plan: &BuildPlan) -> (r: Vec<CommandSpec>) {
        let mut jobs = "-j".to_owned();
        jobs.append(threads(plan).as_str());
        let mut args: Vec<String> = Vec::new();
        text::push_text(&mut args, "-f");
        text::push_text(&mut args, self.manifest_path(plan).as_str());
        text::push_text(&mut args, jobs.as_str());
        text::push_text(&mut args, "all");
        assert(text::texts(args@) =~= make_build(plan@)[0].args);
        let out = single_command("make", args);
        assert(command_views(out@) =~= make_build(plan@));
        out
    }

    fn artifact_candidates(&self, plan: &BuildPlan) -> (r: Vec<String>) {
        plain_candidates(plan)
    }
}

// ---------------------------------------------------------------------------
// Laws
// ---------------------------------------------------------------------------

/// A program that make would leave is looked for after a build with CMake too.
pub proof fn cmake_looks_where_make_looks(plan: PlanView)
    ensures
        plain_artifacts(plan).is_prefix_of(cmake_artifacts(plan)),
{
    assert(cmake_artifacts(plan).subrange(0, plain_artifacts(plan).len() as int)
        =~= plain_artifacts(plan));
}

/// Builds of different profiles do not share a directory.
pub proof fn profiles_are_kept_apart(plan: PlanView, other: PlanView)
    requires
        plan.target_dir == other.target_dir,
        plan.windows == other.windows,
        plan.profile != other.profile,
    ensures
        profile_dir(plan) != profile_dir(other),
{
    reveal_strlit("debug");
    reveal_strlit("release");
    reveal_strlit(".");
    reveal_strlit("..");
    paths::joining_a_name(plan.windows, plan.target_dir, profile_name(plan.profile));
    paths::joining_a_name(other.windows, other.target_dir, profile_name(other.profile));
    assert(profile_dir(plan).len() != profile_dir(other).len());
}

proof fn lemma_plain_names(plan: PlanView)
    ensures
        paths::is_plain_name(plan.windows, profile_name(plan.profile)),
        paths::is_plain_name(plan.windows, build_dir_name(plan)),
{
    reveal_strlit("debug");
    reveal_strlit("release");
    reveal_strlit("cook-build-");
    reveal_strlit("gcc");
    reveal_strlit("msvc");
    reveal_strlit(".");
    reveal_strlit("..");
}

/// Two builds into the same target directory work in the same directory exactly if
/// they have the same profile and the same compiler.
pub proof fn build_dirs_are_kept_apart(plan: PlanView, other: PlanView)
    requires
        plan.target_dir == other.target_dir,
        plan.windows == other.windows,
    ensures
        build_dir(plan) == build_dir(other) <==> plan.profile == other.profile && plan.compiler
            == other.compiler,
{
    reveal_strlit("debug");
    reveal_strlit("release");
    reveal_strlit("cook-build-");
    reveal_strlit("gcc");
    reveal_strlit("msvc");
    let windows = plan.windows;
    let a = profile_dir(plan);
    let b = profile_dir(other);
    lemma_plain_names(plan);
    lemma_plain_names(other);
    paths::joining_a_name(windows, plan.target_dir, profile_name(plan.profile));
    paths::joining_a_name(windows, other.target_dir, profile_name(other.profile));
    paths::joining_a_name(windows, a, build_dir_name(plan));
    paths::joining_a_name(windows, b, build_dir_name(other));
    paths::name_front_ends_as_the_base(windows, a);
    paths::name_front_ends_as_the_base(windows, b);
    let x = build_dir(plan);
    let y = build_dir(other);
    if x == y {
        // the last letter but one tells the compilers apart
        assert(x[x.len() - 2] == build_dir_name(plan)[build_dir_name(plan).len() - 2]);
        assert(y[y.len() - 2] == build_dir_name(other)[build_dir_name(other).len() - 2]);
        assert(plan.compiler == other.compiler);
        // what stands before the name ends as the profile does
        let front = paths::name_front(windows, a);
        let back = paths::name_front(windows, b);
        assert(x.take(x.len() - build_dir_name(plan).len()) =~= front);
        assert(y.take(y.len() - build_dir_name(other).len()) =~= back);
        assert(front.subrange(front.len() - 2, front.len() as int)[0] == a.last());
        assert(back.subrange(back.len() - 2, back.len() as int)[0] == b.last());
        assert(a.last() == profile_name(plan.profile).last());
        assert(b.last() == profile_name(other.profile).last());
    }
}

/// The directory in which the build system works lies in the directory of the
/// profile, under a name that tells the compiler; on Windows, unless either of them
/// is read as part of a share or a device.
pub proof fn build_dir_lies_in_profile_dir(plan: PlanView)
    requires
        paths::lead(plan.windows, profile_dir(plan)) == paths::lead(
            plan.windows,
            plan.target_dir,
        ),
        paths::lead(plan.windows, build_dir(plan)) == paths::lead(plan.windows, plan.target_dir),
    ensures
        paths::parent(plan.windows, build_dir(plan)) == Some(profile_dir(plan)),
        paths::file_name(plan.windows, build_dir(plan)) == Some(build_dir_name(plan)),
{
    reveal_strlit("debug");
    reveal_strlit("release");
    let profile = profile_name(plan.profile);
    lemma_plain_names(plan);
    paths::joining_a_name(plan.windows, plan.target_dir, profile);
    paths::joined_names_are_settled(plan.windows, plan.target_dir, profile);
    assert(profile_dir(plan).last() == profile.last());
    paths::a_name_lies_in_its_directory(plan.windows, profile_dir(plan), build_dir_name(plan));
}

}
