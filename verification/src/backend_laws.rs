//! What holds of the build files and commands of a project, whatever the project is.
use vstd::prelude::*;
use vstd::string::*;

use crate::backends;
use crate::backends::{
    BuildBackend, BuildPlan, BuildProfile, CmakeBackend, MakeBackend, Part, PlanView,
};
use crate::config::{BuildCompiler, OptimizationLevel};
use crate::packages;
use crate::paths;
use crate::text;

verus! {

broadcast use vstd::string::group_string_axioms;

// ---------------------------------------------------------------------------
// Rules of the Makefile
// ---------------------------------------------------------------------------

/// The name of a source ends in `.c`, with a small or a capital letter.
pub open spec fn ends_as_c(source: Seq<char>) -> bool {
    source.len() >= 2 && source[source.len() - 2] == '.' && (source[source.len() - 1] == 'c'
        || source[source.len() - 1] == 'C')
}

/// The name of a source ends in `.cc`, `.cpp` or `.cxx`, in small or capital letters.
pub open spec fn ends_as_cxx(source: Seq<char>) -> bool {
    let n = source.len() as int;
    ||| n >= 3 && source[n - 3] == '.' && (source[n - 2] == 'c' || source[n - 2] == 'C') && (
    source[n - 1] == 'c' || source[n - 1] == 'C')
    ||| n >= 4 && source[n - 4] == '.' && (source[n - 3] == 'c' || source[n - 3] == 'C') && (
    source[n - 2] == 'p' || source[n - 2] == 'P') && (source[n - 1] == 'p' || source[n - 1] == 'P')
    ||| n >= 4 && source[n - 4] == '.' && (source[n - 3] == 'c' || source[n - 3] == 'C') && (
    source[n - 2] == 'x' || source[n - 2] == 'X') && (source[n - 1] == 'x' || source[n - 1] == 'X')
}

proof fn lemma_c_ending(source: Seq<char>)
    ensures
        backends::is_c_source(source) == ends_as_c(source),
{
    reveal_strlit(".c");
    let lower = text::lowered(source);
    let n = source.len() as int;
    if n >= 2 {
        assert(lower[n - 2] == text::lower_char(source[n - 2]));
        assert(lower[n - 1] == text::lower_char(source[n - 1]));
        let tail = lower.subrange(n - 2, n);
        assert(tail[0] == lower[n - 2] && tail[1] == lower[n - 1]);
        if ends_as_c(source) {
            assert(tail =~= ".c"@);
        }
        if backends::is_c_source(source) {
            assert(tail == ".c"@);
        }
    }
}

/// make compiles a source whose name ends in `.c` or `.C` with the C compiler and its
/// flags, and any other, such as one that ends in `.cc`, `.cpp` or `.cxx`, with the
/// C++ compiler and its flags. Each rule makes the source's own object file of the
/// source that the plan names.
pub proof fn rules_follow_the_endings(plan: PlanView, i: int)
    requires
        0 <= i < plan.sources.len(),
    ensures
        ends_as_c(plan.sources[i]) ==> backends::compile_rule(plan, i as nat)
            == backends::object_file(plan, i as nat) + ": "@ + plan.sources[i]
            + "\n\t@$(call MKDIR_P,$(dir $@))\n\t$(CC) $(CFLAGS) $(INCLUDES) -c $< -o $@"@,
        ends_as_cxx(plan.sources[i]) ==> !ends_as_c(plan.sources[i]),
        !ends_as_c(plan.sources[i]) ==> backends::compile_rule(plan, i as nat)
            == backends::object_file(plan, i as nat) + ": "@ + plan.sources[i]
            + "\n\t@$(call MKDIR_P,$(dir $@))\n\t$(CXX) $(CXXFLAGS) $(INCLUDES) -c $< -o $@"@,
        backends::object_file(plan, i as nat) == paths::normalized(backends::profile_dir(plan))
            + "/obj/"@ + text::decimal(i as nat) + ".o"@,
{
    let source = plan.sources[i];
    lemma_c_ending(source);
    let front = backends::object_file(plan, i as nat) + ": "@ + source;
    reveal_strlit("\n\t@$(call MKDIR_P,$(dir $@))\n\t");
    reveal_strlit("$(CC) $(CFLAGS)");
    reveal_strlit("$(CXX) $(CXXFLAGS)");
    reveal_strlit(" $(INCLUDES) -c $< -o $@");
    reveal_strlit("\n\t@$(call MKDIR_P,$(dir $@))\n\t$(CC) $(CFLAGS) $(INCLUDES) -c $< -o $@");
    reveal_strlit("\n\t@$(call MKDIR_P,$(dir $@))\n\t$(CXX) $(CXXFLAGS) $(INCLUDES) -c $< -o $@");
    assert("\n\t@$(call MKDIR_P,$(dir $@))\n\t"@ + "$(CC) $(CFLAGS)"@
        + " $(INCLUDES) -c $< -o $@"@
        =~= "\n\t@$(call MKDIR_P,$(dir $@))\n\t$(CC) $(CFLAGS) $(INCLUDES) -c $< -o $@"@);
    assert("\n\t@$(call MKDIR_P,$(dir $@))\n\t"@ + "$(CXX) $(CXXFLAGS)"@
        + " $(INCLUDES) -c $< -o $@"@
        =~= "\n\t@$(call MKDIR_P,$(dir $@))\n\t$(CXX) $(CXXFLAGS) $(INCLUDES) -c $< -o $@"@);
    lemma_regroup(
        front,
        "\n\t@$(call MKDIR_P,$(dir $@))\n\t"@,
        if ends_as_c(source) {
            "$(CC) $(CFLAGS)"@
        } else {
            "$(CXX) $(CXXFLAGS)"@
        },
        " $(INCLUDES) -c $< -o $@"@,
    );
}

proof fn lemma_regroup(a: Seq<char>, b: Seq<char>, c: Seq<char>, d: Seq<char>)
    ensures
        a + b + c + d == a + (b + c + d),
{
    assert(a + b + c + d =~= a + (b + c + d));
}

/// The language of a source does not depend on the case of its name.
pub proof fn case_does_not_change_the_language(a: Seq<char>, b: Seq<char>)
    requires
        text::lowered(a) == text::lowered(b),
    ensures
        backends::is_c_source(a) == backends::is_c_source(b),
        ends_as_c(a) == ends_as_c(b),
{
    lemma_c_ending(a);
    lemma_c_ending(b);
}

/// No two sources share an object file.
pub proof fn object_files_are_kept_apart(plan: PlanView, i: nat, j: nat)
    requires
        backends::object_file(plan, i) == backends::object_file(plan, j),
    ensures
        i == j,
{
    let front = paths::normalized(backends::profile_dir(plan)) + "/obj/"@;
    let a = backends::object_file(plan, i);
    let b = backends::object_file(plan, j);
    let m = front.len() as int;
    assert(a.len() == m + text::decimal(i).len() + ".o"@.len());
    assert(b.len() == m + text::decimal(j).len() + ".o"@.len());
    assert(a.subrange(m, m + text::decimal(i).len()) =~= text::decimal(i));
    assert(b.subrange(m, m + text::decimal(j).len()) =~= text::decimal(j));
    text::numbers_are_told_apart(i, j);
}

/// The `Makefile` holds the rule of every source, and the rules stand in the order of
/// the sources.
pub proof fn makefile_holds_every_rule(plan: PlanView, working_dir: Option<Seq<char>>, i: int)
    requires
        0 <= i < plan.sources.len(),
    ensures
        text::has_text(
            MakeBackend.rendered(plan, working_dir),
            backends::compile_rule(plan, i as nat),
        ),
        text::has_text(
            MakeBackend.rendered(plan, working_dir),
            backends::object_file(plan, i as nat),
        ),
        i + 1 < plan.sources.len() ==> text::has_text(
            MakeBackend.rendered(plan, working_dir),
            backends::compile_rule(plan, i as nat) + "\n\n"@ + backends::compile_rule(
                plan,
                (i + 1) as nat,
            ),
        ),
{
    text::lemma_held();
    let rules = Seq::new(plan.sources.len(), |k: int| backends::compile_rule(plan, k as nat));
    text::joined_items_are_held(rules, "\n\n"@, i);
    if i + 1 < plan.sources.len() {
        text::separators_stand_between_neighbours(rules, "\n\n"@, i);
    }
    assert(rules[i] == backends::compile_rule(plan, i as nat));
    assert(text::has_text(backends::compile_rule(plan, i as nat), backends::object_file(
        plan,
        i as nat,
    )));
    lemma_held_in_turn(backends::make_text(plan), rules[i], backends::object_file(plan, i as nat));
}

proof fn lemma_held_in_turn(whole: Seq<char>, middle: Seq<char>, part: Seq<char>)
    requires
        text::has_text(whole, middle),
        text::has_text(middle, part),
    ensures
        text::has_text(whole, part),
{
    let i = choose|i: int| text::occurs_at(whole, middle, i);
    let j = choose|j: int| text::occurs_at(middle, part, j);
    assert(whole.subrange(i + j, i + j + part.len()) =~= whole.subrange(
        i,
        i + middle.len(),
    ).subrange(j, j + part.len()));
    assert(text::occurs_at(whole, part, i + j));
}

// ---------------------------------------------------------------------------
// Flags
// ---------------------------------------------------------------------------

/// The flags with which make compiles C: those of the level that the plan asks for,
/// or else those of the profile, then what tells the profiles apart, the warnings,
/// and at the end the flags of the user. C++ has the same, its standard and its own.
pub proof fn make_flags_follow_the_plan(plan: PlanView)
    ensures
        ({
            let c = backends::make_c_flags(plan);
            let cxx = backends::make_cxx_flags(plan);
            let n = if plan.fast_math {
                4int
            } else {
                3int
            };
            &&& c.len() == n + plan.c_flags.len()
            &&& plan.optimization is None && plan.profile == BuildProfile::Debug ==> c[0] == "-O0"@
            &&& plan.optimization is None && plan.profile == BuildProfile::Release ==> c[0]
                == "-O3"@
            &&& plan.optimization == Some(OptimizationLevel::O0) ==> c[0] == "-O0"@
            &&& plan.optimization == Some(OptimizationLevel::O1) ==> c[0] == "-O1"@
            &&& plan.optimization == Some(OptimizationLevel::O2) ==> c[0] == "-O2"@
            &&& plan.optimization == Some(OptimizationLevel::O3) ==> c[0] == "-O3"@
            &&& plan.optimization == Some(OptimizationLevel::Os) ==> c[0] == "-Os"@
            &&& plan.optimization == Some(OptimizationLevel::Oz) ==> c[0] == "-Oz"@
            &&& plan.profile == BuildProfile::Debug ==> c[1] == "-g"@
            &&& plan.profile == BuildProfile::Release ==> c[1] == "-DNDEBUG"@
            &&& c[2] == "-Wall"@
            &&& plan.fast_math ==> c[3] == "-ffast-math"@
            &&& c.skip(n) == plan.c_flags
            &&& cxx.len() == c.len() + 1 + plan.cxx_flags.len()
            &&& cxx.take(c.len() as int) == c
            &&& cxx[c.len() as int] == "-std=c++"@ + plan.cpp_standard
            &&& cxx.skip(c.len() as int + 1) == plan.cxx_flags
        }),
{
    let c = backends::make_c_flags(plan);
    let cxx = backends::make_cxx_flags(plan);
    let n = if plan.fast_math {
        4int
    } else {
        3int
    };
    assert(c.skip(n) =~= plan.c_flags);
    assert(cxx.take(c.len() as int) =~= c);
    assert(cxx.skip(c.len() as int + 1) =~= plan.cxx_flags);
}

/// The `Makefile` sets these flags, its own compilers unless the user names others, and
/// the program as the thing to make.
pub proof fn makefile_sets_its_variables(plan: PlanView, working_dir: Option<Seq<char>>)
    ensures
        ("CC ?= gcc\nCXX ?= g++\nCFLAGS ?= "@ + text::joined(backends::make_c_flags(plan), " "@)
            + "\nCXXFLAGS ?= "@ + text::joined(
            backends::make_cxx_flags(plan),
            " "@,
        )).is_prefix_of(MakeBackend.rendered(plan, working_dir)),
        text::has_text(
            MakeBackend.rendered(plan, working_dir),
            "\nOUTPUT := "@ + paths::normalized(backends::profile_dir(plan)) + "/"@
                + plan.project_name,
        ),
        text::has_text(
            MakeBackend.rendered(plan, working_dir),
            "all: $(OUTPUT)\n\n$(OUTPUT): $(OBJECTS)\n\t@$(call MKDIR_P,$(dir $@))\n\t$(CXX) $(OBJECTS) $(DEP_LINKS) -o $@\n"@,
        ),
        text::has_text(
            MakeBackend.rendered(plan, working_dir),
            "\n\nclean:\n\t@$(call RM_RF,"@ + paths::normalized(backends::profile_dir(plan)) + ")\n"@,
        ),
{
    text::lemma_held();
    text::lemma_ends_are_held();
    let front = "CC ?= gcc\nCXX ?= g++\nCFLAGS ?= "@ + text::joined(
        backends::make_c_flags(plan),
        " "@,
    ) + "\nCXXFLAGS ?= "@ + text::joined(backends::make_cxx_flags(plan), " "@);
    lemma_begins(plan, front);
    let all = backends::make_text(plan);
    let block = "\n\nifeq ($(OS),Windows_NT)\nMKDIR_P = if not exist \"$(subst /,\\,$(patsubst %/,%,$(1)))\" mkdir \"$(subst /,\\,$(patsubst %/,%,$(1)))\"\nRM_RF = if exist \"$(subst /,\\,$(patsubst %/,%,$(1)))\" rmdir /S /Q \"$(subst /,\\,$(patsubst %/,%,$(1)))\"\nelse\nMKDIR_P = mkdir -p \"$(1)\"\nRM_RF = rm -rf \"$(1)\"\nendif\n\nall: $(OUTPUT)\n\n$(OUTPUT): $(OBJECTS)\n\t@$(call MKDIR_P,$(dir $@))\n\t$(CXX) $(OBJECTS) $(DEP_LINKS) -o $@\n\n"@;
    let goal = "all: $(OUTPUT)\n\n$(OUTPUT): $(OBJECTS)\n\t@$(call MKDIR_P,$(dir $@))\n\t$(CXX) $(OBJECTS) $(DEP_LINKS) -o $@\n"@;
    assert(text::has_text(all, block));
    lemma_block_holds_the_goal();
    lemma_held_in_turn(all, block, goal);
}

proof fn lemma_block_holds_the_goal()
    ensures
        text::has_text(
            "\n\nifeq ($(OS),Windows_NT)\nMKDIR_P = if not exist \"$(subst /,\\,$(patsubst %/,%,$(1)))\" mkdir \"$(subst /,\\,$(patsubst %/,%,$(1)))\"\nRM_RF = if exist \"$(subst /,\\,$(patsubst %/,%,$(1)))\" rmdir /S /Q \"$(subst /,\\,$(patsubst %/,%,$(1)))\"\nelse\nMKDIR_P = mkdir -p \"$(1)\"\nRM_RF = rm -rf \"$(1)\"\nendif\n\nall: $(OUTPUT)\n\n$(OUTPUT): $(OBJECTS)\n\t@$(call MKDIR_P,$(dir $@))\n\t$(CXX) $(OBJECTS) $(DEP_LINKS) -o $@\n\n"@,
            "all: $(OUTPUT)\n\n$(OUTPUT): $(OBJECTS)\n\t@$(call MKDIR_P,$(dir $@))\n\t$(CXX) $(OBJECTS) $(DEP_LINKS) -o $@\n"@,
        ),
{
    reveal_strlit(
        "\n\nifeq ($(OS),Windows_NT)\nMKDIR_P = if not exist \"$(subst /,\\,$(patsubst %/,%,$(1)))\" mkdir \"$(subst /,\\,$(patsubst %/,%,$(1)))\"\nRM_RF = if exist \"$(subst /,\\,$(patsubst %/,%,$(1)))\" rmdir /S /Q \"$(subst /,\\,$(patsubst %/,%,$(1)))\"\nelse\nMKDIR_P = mkdir -p \"$(1)\"\nRM_RF = rm -rf \"$(1)\"\nendif\n\nall: $(OUTPUT)\n\n$(OUTPUT): $(OBJECTS)\n\t@$(call MKDIR_P,$(dir $@))\n\t$(CXX) $(OBJECTS) $(DEP_LINKS) -o $@\n\n",
    );
    reveal_strlit(
        "all: $(OUTPUT)\n\n$(OUTPUT): $(OBJECTS)\n\t@$(call MKDIR_P,$(dir $@))\n\t$(CXX) $(OBJECTS) $(DEP_LINKS) -o $@\n",
    );
    let block = "\n\nifeq ($(OS),Windows_NT)\nMKDIR_P = if not exist \"$(subst /,\\,$(patsubst %/,%,$(1)))\" mkdir \"$(subst /,\\,$(patsubst %/,%,$(1)))\"\nRM_RF = if exist \"$(subst /,\\,$(patsubst %/,%,$(1)))\" rmdir /S /Q \"$(subst /,\\,$(patsubst %/,%,$(1)))\"\nelse\nMKDIR_P = mkdir -p \"$(1)\"\nRM_RF = rm -rf \"$(1)\"\nendif\n\nall: $(OUTPUT)\n\n$(OUTPUT): $(OBJECTS)\n\t@$(call MKDIR_P,$(dir $@))\n\t$(CXX) $(OBJECTS) $(DEP_LINKS) -o $@\n\n"@;
    let goal = "all: $(OUTPUT)\n\n$(OUTPUT): $(OBJECTS)\n\t@$(call MKDIR_P,$(dir $@))\n\t$(CXX) $(OBJECTS) $(DEP_LINKS) -o $@\n"@;
    let at = block.len() - 1 - goal.len();
    assert(block.subrange(at, at + goal.len()) =~= goal);
    assert(text::occurs_at(block, goal, at));
}

proof fn lemma_begins(plan: PlanView, front: Seq<char>)
    requires
        front == "CC ?= gcc\nCXX ?= g++\nCFLAGS ?= "@ + text::joined(
            backends::make_c_flags(plan),
            " "@,
        ) + "\nCXXFLAGS ?= "@ + text::joined(backends::make_cxx_flags(plan), " "@),
    ensures
        front.is_prefix_of(backends::make_text(plan)),
{
    text::lemma_beginnings_are_kept();
    assert(front.subrange(0, front.len() as int) =~= front);
}

/// The flags that CMake is told in both languages: the level that the plan asks for,
/// in the words of its compiler, and fast mathematics where it is asked for.
pub proof fn cmake_flags_speak_to_the_compiler(plan: PlanView)
    ensures
        ({
            let flags = backends::common_flags(plan);
            let gcc = plan.compiler == BuildCompiler::Gcc;
            let level = plan.optimization;
            &&& flags.len() == (if level is Some {
                1int
            } else {
                0
            }) + (if plan.fast_math {
                1int
            } else {
                0
            })
            &&& gcc && level == Some(OptimizationLevel::O0) ==> flags[0] == "-O0"@
            &&& gcc && level == Some(OptimizationLevel::O1) ==> flags[0] == "-O1"@
            &&& gcc && level == Some(OptimizationLevel::O2) ==> flags[0] == "-O2"@
            &&& gcc && level == Some(OptimizationLevel::O3) ==> flags[0] == "-O3"@
            &&& gcc && level == Some(OptimizationLevel::Os) ==> flags[0] == "-Os"@
            &&& gcc && level == Some(OptimizationLevel::Oz) ==> flags[0] == "-Oz"@
            &&& !gcc && level == Some(OptimizationLevel::O0) ==> flags[0] == "/Od"@
            &&& !gcc && level == Some(OptimizationLevel::O1) ==> flags[0] == "/O1"@
            &&& !gcc && level == Some(OptimizationLevel::O2) ==> flags[0] == "/O2"@
            &&& !gcc && level == Some(OptimizationLevel::O3) ==> flags[0] == "/Ox"@
            &&& !gcc && level == Some(OptimizationLevel::Os) ==> flags[0] == "/O1"@
            &&& !gcc && level == Some(OptimizationLevel::Oz) ==> flags[0] == "/O1"@
            &&& plan.fast_math && gcc ==> flags.last() == "-ffast-math"@
            &&& plan.fast_math && !gcc ==> flags.last() == "/fp:fast"@
        }),
{
}

/// `CMakeLists.txt` sets the flags of each language, the common ones before those of
/// the user, exactly where there are any.
pub proof fn cmake_file_sets_the_flags(plan: PlanView, working_dir: Option<Seq<char>>)
    ensures
        ({
            let c = text::joined(backends::common_flags(plan) + plan.c_flags, " "@);
            let cxx = text::joined(backends::common_flags(plan) + plan.cxx_flags, " "@);
            let all = CmakeBackend.rendered(plan, working_dir);
            &&& c.len() > 0 ==> text::has_text(
                all,
                "set(CMAKE_C_FLAGS \"${CMAKE_C_FLAGS} "@ + backends::cmake_escaped(c) + "\")"@,
            )
            &&& cxx.len() > 0 ==> text::has_text(
                all,
                "set(CMAKE_CXX_FLAGS \"${CMAKE_CXX_FLAGS} "@ + backends::cmake_escaped(cxx) + "\")"@,
            )
            &&& c.len() == 0 && cxx.len() == 0 ==> backends::flag_lines(c, cxx).len() == 0
        }),
{
    text::lemma_held();
    let c = text::joined(backends::common_flags(plan) + plan.c_flags, " "@);
    let cxx = text::joined(backends::common_flags(plan) + plan.cxx_flags, " "@);
    let c_line = "set(CMAKE_C_FLAGS \"${CMAKE_C_FLAGS} "@ + backends::cmake_escaped(c) + "\")"@;
    let cxx_line = "set(CMAKE_CXX_FLAGS \"${CMAKE_CXX_FLAGS} "@ + backends::cmake_escaped(cxx)
        + "\")"@;
    let lines = (if c.len() > 0 {
        seq![c_line]
    } else {
        Seq::empty()
    }) + (if cxx.len() > 0 {
        seq![cxx_line]
    } else {
        Seq::empty()
    });
    assert(backends::flag_lines(c, cxx) == text::joined(lines, "\n"@));
    if c.len() > 0 {
        assert(lines[0] == c_line);
        text::joined_items_are_held(lines, "\n"@, 0);
    }
    if cxx.len() > 0 {
        assert(lines[lines.len() - 1] == cxx_line);
        text::joined_items_are_held(lines, "\n"@, lines.len() - 1);
    }
}

/// Text for CMake keeps its characters, but for quotes and backslashes, before which
/// a backslash is put.
pub proof fn cmake_text_is_escaped(value: Seq<char>)
    ensures
        !value.contains('\\') && !value.contains('"') ==> backends::cmake_escaped(value) == value,
        backends::cmake_escaped(seq!['"']) == seq!['\\', '"'],
        backends::cmake_escaped(seq!['\\']) == seq!['\\', '\\'],
{
    reveal_strlit("\\\\");
    reveal_strlit("\\\"");
    assert("\\\\"@ =~= seq!['\\', '\\']);
    assert("\\\""@ =~= seq!['\\', '"']);
    let nothing = Seq::<char>::empty();
    text::replacing_is_piece_by_piece(value, nothing, '\\', "\\\\"@);
    text::replacing_is_piece_by_piece(value, nothing, '"', "\\\""@);
    text::replacing_is_piece_by_piece(seq!['"'], nothing, '\\', "\\\\"@);
    text::replacing_is_piece_by_piece(seq!['"'], nothing, '"', "\\\""@);
    text::replacing_is_piece_by_piece(seq!['\\'], nothing, '\\', "\\\\"@);
    text::replacing_is_piece_by_piece("\\\\"@, nothing, '"', "\\\""@);
}

// ---------------------------------------------------------------------------
// The CMake file
// ---------------------------------------------------------------------------

/// `CMakeLists.txt` begins with the project, for both languages, and its C++
/// standard, and has every program and library put into the directory of the profile.
pub proof fn cmake_file_names_the_project(plan: PlanView, working_dir: Option<Seq<char>>)
    ensures
        ({
            let all = CmakeBackend.rendered(plan, working_dir);
            let dir = backends::profile_dir(plan);
            let out = paths::normalized(
                match working_dir {
                    Some(here) => paths::path_join(plan.windows, here, dir),
                    None => dir,
                },
            );
            &&& ("cmake_minimum_required(VERSION 3.15)\nproject("@ + plan.project_name
                + " C CXX)\n\nset(CMAKE_C_STANDARD 11)\nset(CMAKE_CXX_STANDARD "@
                + plan.cpp_standard).is_prefix_of(all)
            &&& text::has_text(
                all,
                ")\nset(CMAKE_CXX_STANDARD_REQUIRED ON)\nset(CMAKE_EXPORT_COMPILE_COMMANDS ON)\nset(CMAKE_RUNTIME_OUTPUT_DIRECTORY \""@
                    + out,
            )
            &&& text::has_text(all, "\")\nset(CMAKE_RUNTIME_OUTPUT_DIRECTORY_DEBUG \""@ + out)
            &&& text::has_text(all, "\")\nset(CMAKE_RUNTIME_OUTPUT_DIRECTORY_RELEASE \""@ + out)
            &&& text::has_text(all, "\")\nset(CMAKE_LIBRARY_OUTPUT_DIRECTORY \""@ + out)
            &&& text::has_text(all, "\")\nset(CMAKE_ARCHIVE_OUTPUT_DIRECTORY \""@ + out)
            &&& text::has_text(all, "\n\nadd_executable("@ + plan.project_name + "\n"@)
        }),
{
    text::lemma_held();
    text::lemma_ends_are_held();
    text::lemma_beginnings_are_kept();
    let front = "cmake_minimum_required(VERSION 3.15)\nproject("@ + plan.project_name
        + " C CXX)\n\nset(CMAKE_C_STANDARD 11)\nset(CMAKE_CXX_STANDARD "@ + plan.cpp_standard;
    assert(front.subrange(0, front.len() as int) =~= front);
}

/// Every source of the plan is a source of the program.
pub proof fn cmake_file_lists_every_source(
    plan: PlanView,
    working_dir: Option<Seq<char>>,
    i: int,
)
    requires
        0 <= i < plan.sources.len(),
    ensures
        text::has_text(CmakeBackend.rendered(plan, working_dir), "    "@ + plan.sources[i]),
        i + 1 < plan.sources.len() ==> text::has_text(
            CmakeBackend.rendered(plan, working_dir),
            "    "@ + plan.sources[i] + "\n"@ + ("    "@ + plan.sources[i + 1]),
        ),
{
    text::lemma_held();
    reveal_strlit("");
    let lines = text::each(plan.sources, "    "@, ""@);
    assert(lines[i] =~= "    "@ + plan.sources[i]);
    text::joined_items_are_held(lines, "\n"@, i);
    if i + 1 < plan.sources.len() {
        assert(lines[i + 1] =~= "    "@ + plan.sources[i + 1]);
        text::separators_stand_between_neighbours(lines, "\n"@, i);
    }
}

/// `CMakeLists.txt` tells of the project, its flags and its subdirectories before it
/// makes the program of its sources, and of headers and libraries after that.
pub proof fn cmake_file_has_an_order(plan: PlanView, working_dir: Option<Seq<char>>)
    ensures
        exists|front: Seq<char>, back: Seq<char>|
            {
                &&& CmakeBackend.rendered(plan, working_dir) == #[trigger] (front
                    + cmake_program(plan) + back)
                &&& "cmake_minimum_required(VERSION 3.15)\nproject("@.is_prefix_of(front)
                &&& text::has_text(
                    front,
                    text::joined(backends::contributed(Part::Subdirectories, plan), "\n"@),
                )
                &&& text::has_text(
                    back,
                    text::joined(backends::contributed(Part::Headers, plan), "\n"@) + "\n"@
                        + text::joined(backends::contributed(Part::LibraryDirs, plan), "\n"@)
                        + "\n\n"@ + backends::link_line(plan) + "\n"@,
                )
            },
{
    text::lemma_held();
    text::lemma_beginnings_are_kept();
    let all = backends::cmake_text(plan, working_dir);
    let out = paths::normalized(
        backends::from_root(plan.windows, backends::profile_dir(plan), working_dir),
    );
    let begin = "cmake_minimum_required(VERSION 3.15)\nproject("@;
    let front = begin + plan.project_name
        + " C CXX)\n\nset(CMAKE_C_STANDARD 11)\nset(CMAKE_CXX_STANDARD "@ + plan.cpp_standard
        + ")\nset(CMAKE_CXX_STANDARD_REQUIRED ON)\nset(CMAKE_EXPORT_COMPILE_COMMANDS ON)\nset(CMAKE_RUNTIME_OUTPUT_DIRECTORY \""@
        + out + "\")\nset(CMAKE_RUNTIME_OUTPUT_DIRECTORY_DEBUG \""@ + out
        + "\")\nset(CMAKE_RUNTIME_OUTPUT_DIRECTORY_RELEASE \""@ + out
        + "\")\nset(CMAKE_LIBRARY_OUTPUT_DIRECTORY \""@ + out
        + "\")\nset(CMAKE_ARCHIVE_OUTPUT_DIRECTORY \""@ + out + "\")\n\n"@ + backends::flag_lines(
        text::joined(backends::common_flags(plan) + plan.c_flags, " "@),
        text::joined(backends::common_flags(plan) + plan.cxx_flags, " "@),
    ) + "\n\n"@ + text::joined(backends::contributed(Part::Subdirectories, plan), "\n"@);
    let sources = text::joined(text::each(plan.sources, "    "@, ""@), "\n"@);
    let headers = text::joined(backends::contributed(Part::Headers, plan), "\n"@);
    let dirs = text::joined(backends::contributed(Part::LibraryDirs, plan), "\n"@);
    let link = backends::link_line(plan);
    let back = headers + "\n"@ + dirs + "\n\n"@ + link + "\n"@;
    assert(begin.subrange(0, begin.len() as int) =~= begin);
    lemma_pieces(
        front,
        seq!["\n\nadd_executable("@, plan.project_name, "\n"@, sources, "\n)\n\n"@],
        seq![headers, "\n"@, dirs, "\n\n"@, link, "\n"@],
    );
    assert(all == front + cmake_program(plan) + back);
}

/// The part of `CMakeLists.txt` that makes the program of its sources.
pub open spec fn cmake_program(plan: PlanView) -> Seq<char> {
    "\n\nadd_executable("@ + plan.project_name + "\n"@ + text::joined(
        text::each(plan.sources, "    "@, ""@),
        "\n"@,
    ) + "\n)\n\n"@
}

proof fn lemma_pieces(front: Seq<char>, m: Seq<Seq<char>>, b: Seq<Seq<char>>)
    requires
        m.len() == 5,
        b.len() == 6,
    ensures
        front + m[0] + m[1] + m[2] + m[3] + m[4] + b[0] + b[1] + b[2] + b[3] + b[4] + b[5] == front
            + (m[0] + m[1] + m[2] + m[3] + m[4]) + (b[0] + b[1] + b[2] + b[3] + b[4] + b[5]),
{
    let middle = m[0] + m[1] + m[2] + m[3] + m[4];
    let back = b[0] + b[1] + b[2] + b[3] + b[4] + b[5];
    assert(front + m[0] + m[1] + m[2] + m[3] + m[4] =~= front + middle);
    let x = front + middle;
    assert(x + b[0] + b[1] + b[2] + b[3] + b[4] + b[5] =~= x + back);
}

/// There is a build file exactly if there is something to build.
pub proof fn nothing_is_made_of_nothing(plan: PlanView, rendered: Seq<char>)
    ensures
        plan.sources.len() == 0 ==> backends::unless_no_sources(plan, rendered) == Err::<
            Seq<char>,
            Seq<char>,
        >("no source files were discovered under src/"@),
        plan.sources.len() > 0 ==> backends::unless_no_sources(plan, rendered) == Ok::<
            Seq<char>,
            Seq<char>,
        >(rendered),
{
}

// ---------------------------------------------------------------------------
// Dependencies
// ---------------------------------------------------------------------------

proof fn lemma_gathered_holds(
    list: Seq<packages::DependencyView>,
    f: spec_fn(packages::DependencyView) -> Seq<Seq<char>>,
    k: int,
    j: int,
) -> (m: int)
    requires
        0 <= k < list.len(),
        0 <= j < f(list[k]).len(),
    ensures
        0 <= m < text::gathered(list, f).len(),
        text::gathered(list, f)[m] == f(list[k])[j],
    decreases list.len(),
{
    if k == list.len() - 1 {
        text::gathered(list.drop_last(), f).len() + j
    } else {
        assert(list.drop_last()[k] == list[k]);
        lemma_gathered_holds(list.drop_last(), f, k, j)
    }
}

proof fn lemma_contribution_is_held(part: Part, plan: PlanView, sep: Seq<char>, k: int, j: int)
    requires
        0 <= k < plan.dependencies.len(),
        0 <= j < backends::contribution(part, plan, plan.dependencies[k]).len(),
    ensures
        text::has_text(
            text::joined(backends::contributed(part, plan), sep),
            backends::contribution(part, plan, plan.dependencies[k])[j],
        ),
{
    let f = |dep: packages::DependencyView| backends::contribution(part, plan, dep);
    let m = lemma_gathered_holds(plan.dependencies, f, k, j);
    text::joined_items_are_held(backends::contributed(part, plan), sep, m);
}

/// A dependency of cook's own is added to the CMake build from where it stands, and
/// linked by its name; make finds its headers in `include`, and its library by name in
/// the directory of the same profile.
pub proof fn own_packages_are_used_from_their_place(
    plan: PlanView,
    working_dir: Option<Seq<char>>,
    k: int,
)
    requires
        0 <= k < plan.dependencies.len(),
        plan.dependencies[k].external_build_system is None,
    ensures
        ({
            let dep = plan.dependencies[k];
            let cmake = CmakeBackend.rendered(plan, working_dir);
            let make = MakeBackend.rendered(plan, working_dir);
            &&& text::has_text(
                cmake,
                "add_subdirectory(\""@ + dep.root_dir + "\" \"${CMAKE_BINARY_DIR}/deps/"@ + dep.name
                    + "\")"@,
            )
            &&& text::has_text(
                text::joined(backends::contributed(Part::Libraries, plan), " "@),
                dep.name,
            )
            &&& text::has_text(make, "-I"@ + dep.root_dir + "/include"@)
            &&& plan.profile == BuildProfile::Debug ==> text::has_text(
                make,
                "-L"@ + dep.root_dir + "/target/debug"@,
            )
            &&& plan.profile == BuildProfile::Release ==> text::has_text(
                make,
                "-L"@ + dep.root_dir + "/target/release"@,
            )
            &&& text::has_text(make, "-l"@ + dep.name)
        }),
{
    let dep = plan.dependencies[k];
    lemma_contribution_is_held(Part::Subdirectories, plan, "\n"@, k, 0);
    lemma_contribution_is_held(Part::Libraries, plan, " "@, k, 0);
    lemma_contribution_is_held(Part::IncludeFlags, plan, " "@, k, 0);
    lemma_contribution_is_held(Part::LinkFlags, plan, " "@, k, 0);
    lemma_contribution_is_held(Part::LinkFlags, plan, " "@, k, 1);
    reveal_strlit("/target/");
    reveal_strlit("debug");
    reveal_strlit("release");
    reveal_strlit("/target/debug");
    reveal_strlit("/target/release");
    assert("-L"@ + dep.root_dir + "/target/"@ + "debug"@ =~= "-L"@ + dep.root_dir
        + "/target/debug"@);
    assert("-L"@ + dep.root_dir + "/target/"@ + "release"@ =~= "-L"@ + dep.root_dir
        + "/target/release"@);
    lemma_make_holds(plan, "-I"@ + dep.root_dir + "/include"@);
    lemma_make_holds(plan, "-L"@ + dep.root_dir + "/target/"@ + backends::profile_name(plan.profile));
    lemma_make_holds(plan, "-l"@ + dep.name);
    lemma_cmake_holds(
        plan,
        working_dir,
        "add_subdirectory(\""@ + dep.root_dir + "\" \"${CMAKE_BINARY_DIR}/deps/"@ + dep.name
            + "\")"@,
    );
}

proof fn lemma_make_holds(plan: PlanView, part: Seq<char>)
    requires
        text::has_text(text::joined(backends::contributed(Part::IncludeFlags, plan), " "@), part)
            || text::has_text(text::joined(backends::contributed(Part::LinkFlags, plan), " "@), part),
    ensures
        text::has_text(backends::make_text(plan), part),
{
    text::lemma_held();
}

proof fn lemma_cmake_holds(plan: PlanView, working_dir: Option<Seq<char>>, part: Seq<char>)
    requires
        text::has_text(text::joined(backends::contributed(Part::Subdirectories, plan), "\n"@), part)
            || text::has_text(text::joined(backends::contributed(Part::Headers, plan), "\n"@), part)
            || text::has_text(
            text::joined(backends::contributed(Part::LibraryDirs, plan), "\n"@),
            part,
        ),
    ensures
        text::has_text(backends::cmake_text(plan, working_dir), part),
{
    text::lemma_held();
}

/// An external dependency is not added to the CMake build; the directories of its
/// headers and libraries are told to either build system.
pub proof fn exported_directories_are_told(
    plan: PlanView,
    working_dir: Option<Seq<char>>,
    k: int,
    j: int,
)
    requires
        0 <= k < plan.dependencies.len(),
        plan.dependencies[k].external_build_system is Some,
    ensures
        backends::contribution(Part::Subdirectories, plan, plan.dependencies[k]).len() == 0,
        0 <= j < plan.dependencies[k].exports.include_dirs.len() ==> {
            let dir = plan.dependencies[k].exports.include_dirs[j];
            &&& text::has_text(
                CmakeBackend.rendered(plan, working_dir),
                "target_include_directories("@ + plan.project_name + " PRIVATE \""@ + dir + "\")"@,
            )
            &&& text::has_text(MakeBackend.rendered(plan, working_dir), "-I"@ + dir)
        },
        0 <= j < plan.dependencies[k].exports.lib_dirs.len() ==> {
            let dir = plan.dependencies[k].exports.lib_dirs[j];
            &&& text::has_text(
                CmakeBackend.rendered(plan, working_dir),
                "target_link_directories("@ + plan.project_name + " PRIVATE \""@ + dir + "\")"@,
            )
            &&& text::has_text(MakeBackend.rendered(plan, working_dir), "-L"@ + dir)
        },
{
    let dep = plan.dependencies[k];
    reveal_strlit("");
    if 0 <= j < dep.exports.include_dirs.len() {
        let dir = dep.exports.include_dirs[j];
        lemma_contribution_is_held(Part::Headers, plan, "\n"@, k, j);
        lemma_contribution_is_held(Part::IncludeFlags, plan, " "@, k, j);
        assert("-I"@ + dir + ""@ =~= "-I"@ + dir);
        lemma_make_holds(plan, "-I"@ + dir);
        lemma_cmake_holds(
            plan,
            working_dir,
            "target_include_directories("@ + plan.project_name + " PRIVATE \""@ + dir + "\")"@,
        );
    }
    if 0 <= j < dep.exports.lib_dirs.len() {
        let dir = dep.exports.lib_dirs[j];
        lemma_contribution_is_held(Part::LibraryDirs, plan, "\n"@, k, j);
        lemma_contribution_is_held(Part::LinkFlags, plan, " "@, k, j);
        assert("-L"@ + dir + ""@ =~= "-L"@ + dir);
        lemma_make_holds(plan, "-L"@ + dir);
        lemma_cmake_holds(
            plan,
            working_dir,
            "target_link_directories("@ + plan.project_name + " PRIVATE \""@ + dir + "\")"@,
        );
    }
}

/// Every library that an external dependency exports is linked. make is given a plain
/// name behind `-l`, and anything else, which is a flag, a path or a file of a
/// library, as it is; CMake is given a path in quotes and anything else as it is.
pub proof fn exported_libraries_are_linked(
    plan: PlanView,
    working_dir: Option<Seq<char>>,
    k: int,
    j: int,
)
    requires
        0 <= k < plan.dependencies.len(),
        plan.dependencies[k].external_build_system is Some,
        0 <= j < plan.dependencies[k].exports.libs.len(),
    ensures
        ({
            let lib = plan.dependencies[k].exports.libs[j];
            let lower = text::lowered(lib);
            let make = MakeBackend.rendered(plan, working_dir);
            let words = text::joined(backends::contributed(Part::Libraries, plan), " "@);
            let is_path = lib.contains('/') || lib.contains('\\');
            let is_file = ".a"@.is_suffix_of(lower) || ".so"@.is_suffix_of(lower)
                || ".dylib"@.is_suffix_of(lower) || ".lib"@.is_suffix_of(lower);
            let is_flag = lib.len() > 0 && (lib[0] == '-' || lib[0] == '.');
            &&& is_path || is_file || is_flag ==> text::has_text(make, lib)
            &&& !is_path && !is_file && !is_flag ==> text::has_text(make, "-l"@ + lib)
            &&& backends::make_token(lib) == (if is_path || is_file || is_flag {
                lib
            } else {
                "-l"@ + lib
            })
            &&& is_path ==> text::has_text(words, "\""@ + lib + "\""@)
            &&& !is_path ==> text::has_text(words, lib) && backends::cmake_token(lib) == lib
            &&& words.len() > 0 ==> text::has_text(
                CmakeBackend.rendered(plan, working_dir),
                "target_link_libraries("@ + plan.project_name + " PRIVATE "@ + words + ")"@,
            )
        }),
{
    let dep = plan.dependencies[k];
    let lib = dep.exports.libs[j];
    reveal_strlit("-");
    reveal_strlit(".");
    if lib.len() > 0 {
        assert(lib.subrange(0, 1) =~= seq![lib[0]]);
        assert("-"@ =~= seq!['-']);
        assert("."@ =~= seq!['.']);
        assert("-"@.is_prefix_of(lib) == (lib[0] == '-')) by {
            assert(lib.subrange(0, 1)[0] == lib[0]);
        }
        assert("."@.is_prefix_of(lib) == (lib[0] == '.')) by {
            assert(lib.subrange(0, 1)[0] == lib[0]);
        }
    }
    let dirs = text::each(dep.exports.lib_dirs, "-L"@, ""@);
    let at = dep.exports.lib_dirs.len() + j;
    assert(backends::contribution(Part::LinkFlags, plan, dep)[at] == backends::make_token(lib));
    lemma_contribution_is_held(Part::LinkFlags, plan, " "@, k, at);
    lemma_contribution_is_held(Part::Libraries, plan, " "@, k, j);
    lemma_make_holds(plan, backends::make_token(lib));
    let words = text::joined(backends::contributed(Part::Libraries, plan), " "@);
    if words.len() > 0 {
        text::lemma_held();
        assert(backends::link_line(plan) == "target_link_libraries("@ + plan.project_name
            + " PRIVATE "@ + words + ")"@);
    }
}

/// Dependencies are told to the build systems in the order of the plan.
pub proof fn dependencies_keep_their_order(part: Part, plan: PlanView, k: int)
    requires
        0 <= k <= plan.dependencies.len(),
    ensures
        backends::contributed(part, plan) == backends::contributed(
            part,
            PlanView { dependencies: plan.dependencies.take(k), ..plan },
        ) + backends::contributed(
            part,
            PlanView { dependencies: plan.dependencies.skip(k), ..plan },
        ),
{
    let f = |dep: packages::DependencyView| backends::contribution(part, plan, dep);
    let front = PlanView { dependencies: plan.dependencies.take(k), ..plan };
    let back = PlanView { dependencies: plan.dependencies.skip(k), ..plan };
    let g = |dep: packages::DependencyView| backends::contribution(part, front, dep);
    let h = |dep: packages::DependencyView| backends::contribution(part, back, dep);
    assert(f =~= g);
    assert(f =~= h);
    lemma_gathered_splits(front.dependencies, back.dependencies, f);
    assert(front.dependencies + back.dependencies =~= plan.dependencies);
}

proof fn lemma_gathered_splits(
    a: Seq<packages::DependencyView>,
    b: Seq<packages::DependencyView>,
    f: spec_fn(packages::DependencyView) -> Seq<Seq<char>>,
)
    ensures
        text::gathered(a + b, f) == text::gathered(a, f) + text::gathered(b, f),
    decreases b.len(),
{
    if b.len() == 0 {
        assert(a + b =~= a);
        assert(text::gathered(a, f) + text::gathered(b, f) =~= text::gathered(a, f));
    } else {
        lemma_gathered_splits(a, b.drop_last(), f);
        assert((a + b).drop_last() =~= a + b.drop_last());
        assert(text::gathered(a, f) + text::gathered(b.drop_last(), f) + f(b.last())
            =~= text::gathered(a, f) + (text::gathered(b.drop_last(), f) + f(b.last())));
    }
}

// ---------------------------------------------------------------------------
// Commands and programs
// ---------------------------------------------------------------------------

/// CMake configures the project where it stands, in the build directory, with the
/// build type of the profile and the compiler of the plan, and then builds there the
/// same type, with as many threads as the plan says, one at least.
pub proof fn cmake_builds_what_it_configured(plan: PlanView)
    ensures
        ({
            let configure = CmakeBackend.configuring(plan);
            let build = CmakeBackend.building(plan);
            let dir = paths::normalized(backends::build_dir(plan));
            let first = configure[0].args;
            &&& configure.len() == 1 && build.len() == 1
            &&& configure[0].program == "cmake"@ && build[0].program == "cmake"@
            &&& first.len() >= 5
            &&& first[0] == "-B"@ && first[1] == dir && first[2] == "-S"@ && first[3] == "."@
            &&& plan.profile == BuildProfile::Debug ==> first[4] == "-DCMAKE_BUILD_TYPE=Debug"@
                && build[0].args[3] == "Debug"@
            &&& plan.profile == BuildProfile::Release ==> first[4] == "-DCMAKE_BUILD_TYPE=Release"@
                && build[0].args[3] == "Release"@
            &&& plan.compiler == BuildCompiler::Gcc && !plan.windows ==> first.skip(5) == seq![
                "-DCMAKE_C_COMPILER=gcc"@,
                "-DCMAKE_CXX_COMPILER=g++"@,
            ]
            &&& plan.compiler == BuildCompiler::Gcc && plan.windows ==> first.skip(5) == seq![
                "-G"@,
                "MinGW Makefiles"@,
                "-DCMAKE_C_COMPILER=gcc"@,
                "-DCMAKE_CXX_COMPILER=g++"@,
            ]
            &&& plan.compiler == BuildCompiler::Msvc && !plan.windows ==> first.len() == 5
            &&& plan.compiler == BuildCompiler::Msvc && plan.windows ==> first.skip(5) == seq![
                "-G"@,
                "Visual Studio 17 2022"@,
            ]
            &&& build[0].args.len() == 6
            &&& build[0].args[0] == "--build"@ && build[0].args[1] == dir
            &&& build[0].args[2] == "--config"@ && build[0].args[4] == "--parallel"@
            &&& plan.build_threads > 0 ==> build[0].args[5] == text::decimal(plan.build_threads)
            &&& plan.build_threads == 0 ==> build[0].args[5] == "1"@
        }),
        CmakeBackend.id_text() == "cmake"@,
        CmakeBackend.manifest_text(plan) == "CMakeLists.txt"@,
{
    reveal_strlit("-DCMAKE_BUILD_TYPE=");
    reveal_strlit("Debug");
    reveal_strlit("Release");
    reveal_strlit("-DCMAKE_BUILD_TYPE=Debug");
    reveal_strlit("-DCMAKE_BUILD_TYPE=Release");
    assert("-DCMAKE_BUILD_TYPE="@ + "Debug"@ =~= "-DCMAKE_BUILD_TYPE=Debug"@);
    assert("-DCMAKE_BUILD_TYPE="@ + "Release"@ =~= "-DCMAKE_BUILD_TYPE=Release"@);
    lemma_one();
    let first = CmakeBackend.configuring(plan)[0].args;
    assert(first.skip(5) =~= backends::toolchain_words(plan.compiler, plan.windows));
    if plan.compiler == BuildCompiler::Gcc {
        if plan.windows {
            assert(first.skip(5) =~= seq![
                "-G"@,
                "MinGW Makefiles"@,
                "-DCMAKE_C_COMPILER=gcc"@,
                "-DCMAKE_CXX_COMPILER=g++"@,
            ]);
        } else {
            assert(first.skip(5) =~= seq!["-DCMAKE_C_COMPILER=gcc"@, "-DCMAKE_CXX_COMPILER=g++"@]);
        }
    }
}

proof fn lemma_one()
    ensures
        text::decimal(1) == "1"@,
{
    reveal_strlit("1");
    text::numbers_are_told_apart(1, 1);
    assert(text::decimal(1)[0] == '1');
    assert(text::decimal(1) =~= "1"@);
}

/// make needs no configuration; it builds everything by the `Makefile` in the directory
/// of the profile, with as many threads as the plan says, one at least.
pub proof fn make_builds_by_its_makefile(plan: PlanView)
    ensures
        MakeBackend.configuring(plan).len() == 0,
        MakeBackend.building(plan).len() == 1,
        ({
            let build = MakeBackend.building(plan)[0];
            &&& build.program == "make"@
            &&& build.args.len() == 4
            &&& build.args[0] == "-f"@
            &&& build.args[1] == MakeBackend.manifest_text(plan)
            &&& build.args[1] == paths::normalized(
                paths::path_join(plan.windows, backends::profile_dir(plan), "Makefile"@),
            )
            &&& plan.build_threads > 0 ==> build.args[2] == "-j"@ + text::decimal(
                plan.build_threads,
            )
            &&& plan.build_threads == 0 ==> build.args[2] == "-j1"@
            &&& build.args[3] == "all"@
        }),
        MakeBackend.id_text() == "make"@,
{
    lemma_one();
    reveal_strlit("-j");
    reveal_strlit("1");
    reveal_strlit("-j1");
    assert("-j"@ + "1"@ =~= "-j1"@);
}

/// The directories of a build bear the names of the profile and the compiler.
pub proof fn directories_bear_names(plan: PlanView)
    ensures
        plan.profile == BuildProfile::Debug ==> backends::profile_dir(plan) == paths::path_join(
            plan.windows,
            plan.target_dir,
            "debug"@,
        ),
        plan.profile == BuildProfile::Release ==> backends::profile_dir(plan) == paths::path_join(
            plan.windows,
            plan.target_dir,
            "release"@,
        ),
        plan.compiler == BuildCompiler::Gcc ==> backends::build_dir(plan) == paths::path_join(
            plan.windows,
            backends::profile_dir(plan),
            "cook-build-gcc"@,
        ),
        plan.compiler == BuildCompiler::Msvc ==> backends::build_dir(plan) == paths::path_join(
            plan.windows,
            backends::profile_dir(plan),
            "cook-build-msvc"@,
        ),
{
    reveal_strlit("cook-build-");
    reveal_strlit("gcc");
    reveal_strlit("msvc");
    reveal_strlit("cook-build-gcc");
    reveal_strlit("cook-build-msvc");
    assert("cook-build-"@ + "gcc"@ =~= "cook-build-gcc"@);
    assert("cook-build-"@ + "msvc"@ =~= "cook-build-msvc"@);
}

/// A program is looked for in the directory of its profile, under its name, with the
/// ending of Windows too; after CMake, also in the directory of the build type there.
pub proof fn programs_are_looked_for_by_name(plan: PlanView)
    ensures
        ({
            let dir = paths::normalized(backends::profile_dir(plan));
            let name = plan.project_name;
            &&& MakeBackend.artifacts(plan) == seq![dir + "/"@ + name, dir + "/"@ + name + ".exe"@]
            &&& plan.profile == BuildProfile::Debug ==> CmakeBackend.artifacts(plan) == seq![
                dir + "/"@ + name,
                dir + "/"@ + name + ".exe"@,
                dir + "/Debug/"@ + name,
                dir + "/Debug/"@ + name + ".exe"@,
            ]
            &&& plan.profile == BuildProfile::Release ==> CmakeBackend.artifacts(plan) == seq![
                dir + "/"@ + name,
                dir + "/"@ + name + ".exe"@,
                dir + "/Release/"@ + name,
                dir + "/Release/"@ + name + ".exe"@,
            ]
        }),
{
    let dir = paths::normalized(backends::profile_dir(plan));
    reveal_strlit("/");
    reveal_strlit("Debug");
    reveal_strlit("Release");
    reveal_strlit("/Debug/");
    reveal_strlit("/Release/");
    assert(dir + "/"@ + "Debug"@ + "/"@ =~= dir + "/Debug/"@);
    assert(dir + "/"@ + "Release"@ + "/"@ =~= dir + "/Release/"@);
    let own = dir + "/"@ + backends::cmake_profile_name(plan.profile) + "/"@ + plan.project_name;
    assert(CmakeBackend.artifacts(plan) =~= seq![
        dir + "/"@ + plan.project_name,
        dir + "/"@ + plan.project_name + ".exe"@,
        own,
        own + ".exe"@,
    ]);
}

/// Where no dependency is linked, there is no line that links.
pub proof fn nothing_is_linked_without_need(plan: PlanView)
    requires
        plan.dependencies.len() == 0,
    ensures
        backends::link_line(plan).len() == 0,
        backends::contributed(Part::Subdirectories, plan).len() == 0,
        backends::contributed(Part::IncludeFlags, plan).len() == 0,
        backends::contributed(Part::LinkFlags, plan).len() == 0,
{
}

/// A plan is read whole: everything that is set in it counts.
pub proof fn plans_are_read_whole(plan: BuildPlan, i: int)
    ensures
        plan@.project_name == plan.project_name@,
        plan@.cpp_standard == plan.cpp_standard@,
        plan@.compiler == plan.compiler,
        plan@.profile == plan.profile,
        plan@.build_threads == plan.build_threads,
        plan@.optimization == plan.compile_params.optimization,
        plan@.fast_math == plan.compile_params.fast_math,
        plan@.c_flags == text::texts(plan.compile_params.c_flags@),
        plan@.cxx_flags == text::texts(plan.compile_params.cxx_flags@),
        plan@.target_dir == plan.target_dir@,
        plan@.sources.len() == plan.sources@.len(),
        0 <= i < plan.sources@.len() ==> plan@.sources[i] == plan.sources@[i]@,
        plan@.dependencies.len() == plan.dependencies@.len(),
        0 <= i < plan.dependencies@.len() ==> plan@.dependencies[i] == plan.dependencies@[i]@,
        plan@.windows == plan.windows,
{
}

}
