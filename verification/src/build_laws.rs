//! What holds of building, running and locking a project, whatever the project is.
use vstd::prelude::*;
use vstd::string::*;

use crate::backends;
use crate::backends::{BuildProfile, PlanView};
use crate::builder;
use crate::builder::{
    BuildReplies, BuildStepView, LockAction, LockReplies, LockStepView, RunStepView, Surroundings,
};
use crate::cache;
use crate::cache::SourceFacts;
use crate::config;
use crate::config::{BuildCompiler, CookConfig, DependencyVisibility};
use crate::digest;
use crate::externals;
use crate::failure::Failure;
use crate::lockfile;
use crate::ordered_map;
use crate::packages;
use crate::packages::ExternalBuildSystem;
use crate::paths;
use crate::programs::ProgramOutcome;
use crate::project;
use crate::scanner;
use crate::text;

verus! {

broadcast use vstd::string::group_string_axioms;

// ---------------------------------------------------------------------------
// New projects
// ---------------------------------------------------------------------------

/// The manifest of a new project begins with its name and the usual settings, which
/// are C++17, CMake and GCC with the lockfile enforced and written, and ends with an
/// empty list of dependencies.
pub proof fn new_manifest_has_the_usual_settings(name: Seq<char>)
    ensures
        ("[project]\nname = \""@ + name
            + "\"\ncpp_standard = \"17\"\n\n[build]\nbackend = \"cmake\"\ncompiler = \"gcc\"\nstrict_lock_in_ci = true\noffline = false\n\n[resolver]\nwrite_lockfile = true\n"@).is_prefix_of(
            builder::new_manifest(name),
        ),
        "\n[dependencies]\n"@.is_suffix_of(builder::new_manifest(name)),
{
    let front = "[project]\nname = \""@ + name;
    let rest = "\"\ncpp_standard = \"17\"\n\n[build]\nbackend = \"cmake\"\ncompiler = \"gcc\"\nstrict_lock_in_ci = true\noffline = false\n\n[resolver]\nwrite_lockfile = true\n\n[project.abi]\n# compiler = \"clang\"\n# compiler_version = \"18\"\n# arch = \"x86_64\"\n\n[dependencies]\n"@;
    let most = "\"\ncpp_standard = \"17\"\n\n[build]\nbackend = \"cmake\"\ncompiler = \"gcc\"\nstrict_lock_in_ci = true\noffline = false\n\n[resolver]\nwrite_lockfile = true\n"@;
    let end = "\n[dependencies]\n"@;
    lemma_usual_settings();
    let all = front + rest;
    assert(builder::new_manifest(name) == all);
    assert(all.subrange(0, (front + most).len() as int) =~= front + most) by {
        assert(rest.take(most.len() as int) == most);
        assert(all.subrange(0, (front + most).len() as int) =~= front + rest.take(
            most.len() as int,
        ));
    }
    assert(all.subrange(all.len() - end.len(), all.len() as int) =~= rest.skip(
        rest.len() - end.len(),
    ));
}

proof fn lemma_usual_settings()
    ensures
        ({
            let rest = "\"\ncpp_standard = \"17\"\n\n[build]\nbackend = \"cmake\"\ncompiler = \"gcc\"\nstrict_lock_in_ci = true\noffline = false\n\n[resolver]\nwrite_lockfile = true\n\n[project.abi]\n# compiler = \"clang\"\n# compiler_version = \"18\"\n# arch = \"x86_64\"\n\n[dependencies]\n"@;
            let most = "\"\ncpp_standard = \"17\"\n\n[build]\nbackend = \"cmake\"\ncompiler = \"gcc\"\nstrict_lock_in_ci = true\noffline = false\n\n[resolver]\nwrite_lockfile = true\n"@;
            let end = "\n[dependencies]\n"@;
            &&& most.len() <= rest.len() && end.len() <= rest.len()
            &&& rest.take(most.len() as int) == most
            &&& rest.skip(rest.len() - end.len()) == end
        }),
{
    reveal_strlit(
        "\"\ncpp_standard = \"17\"\n\n[build]\nbackend = \"cmake\"\ncompiler = \"gcc\"\nstrict_lock_in_ci = true\noffline = false\n\n[resolver]\nwrite_lockfile = true\n\n[project.abi]\n# compiler = \"clang\"\n# compiler_version = \"18\"\n# arch = \"x86_64\"\n\n[dependencies]\n",
    );
    reveal_strlit(
        "\"\ncpp_standard = \"17\"\n\n[build]\nbackend = \"cmake\"\ncompiler = \"gcc\"\nstrict_lock_in_ci = true\noffline = false\n\n[resolver]\nwrite_lockfile = true\n",
    );
    reveal_strlit("\n[dependencies]\n");
    let rest = "\"\ncpp_standard = \"17\"\n\n[build]\nbackend = \"cmake\"\ncompiler = \"gcc\"\nstrict_lock_in_ci = true\noffline = false\n\n[resolver]\nwrite_lockfile = true\n\n[project.abi]\n# compiler = \"clang\"\n# compiler_version = \"18\"\n# arch = \"x86_64\"\n\n[dependencies]\n"@;
    let most = "\"\ncpp_standard = \"17\"\n\n[build]\nbackend = \"cmake\"\ncompiler = \"gcc\"\nstrict_lock_in_ci = true\noffline = false\n\n[resolver]\nwrite_lockfile = true\n"@;
    let end = "\n[dependencies]\n"@;
    assert(rest.take(most.len() as int) =~= most);
    assert(rest.skip(rest.len() - end.len()) =~= end);
}

/// A project is made unless its name is blank or its place is taken, in this order.
pub proof fn new_projects_need_a_name_and_a_place(name: Seq<char>, occupied: bool)
    ensures
        text::trimmed(name).len() == 0 ==> builder::new_project_complaint(name, occupied) == Some(
            "project name cannot be empty"@,
        ),
        text::trimmed(name).len() > 0 && occupied ==> builder::new_project_complaint(
            name,
            occupied,
        ) == Some("target directory '"@ + name + "' already exists and is not empty"@),
        text::trimmed(name).len() > 0 && !occupied ==> builder::new_project_complaint(
            name,
            occupied,
        ) is None,
{
}

// ---------------------------------------------------------------------------
// The lockfile
// ---------------------------------------------------------------------------

/// A setting is switched on by `1`, `true` or `yes`, in small or capital letters, and by
/// nothing else.
pub proof fn settings_are_switched_on_by_three_words(v: Seq<char>)
    ensures
        !builder::is_switched_on(None),
        builder::is_switched_on(Some(v)) <==> {
            ||| v.len() == 1 && v[0] == '1'
            ||| v.len() == 4 && (v[0] == 't' || v[0] == 'T') && (v[1] == 'r' || v[1] == 'R') && (v[2]
                == 'u' || v[2] == 'U') && (v[3] == 'e' || v[3] == 'E')
            ||| v.len() == 3 && (v[0] == 'y' || v[0] == 'Y') && (v[1] == 'e' || v[1] == 'E') && (v[2]
                == 's' || v[2] == 'S')
        },
{
    reveal_strlit("1");
    reveal_strlit("true");
    reveal_strlit("yes");
    let lower = text::lowered(v);
    assert(lower.len() == v.len());
    assert("1"@.len() == 1 && "true"@.len() == 4 && "yes"@.len() == 3);
    assert forall|i: int| 0 <= i < v.len() implies lower[i] == text::lower_char(#[trigger] v[i]) by {}
    if v.len() == 1 && v[0] == '1' {
        assert(lower =~= "1"@);
    }
    if v.len() == 4 && (v[0] == 't' || v[0] == 'T') && (v[1] == 'r' || v[1] == 'R') && (v[2] == 'u'
        || v[2] == 'U') && (v[3] == 'e' || v[3] == 'E') {
        assert(lower =~= "true"@);
    }
    if v.len() == 3 && (v[0] == 'y' || v[0] == 'Y') && (v[1] == 'e' || v[1] == 'E') && (v[2] == 's'
        || v[2] == 'S') {
        assert(lower =~= "yes"@);
    }
    if lower == "1"@ {
        assert(lower[0] == '1' && lower[0] == text::lower_char(v[0]));
    }
    if lower == "true"@ {
        assert(v.len() == 4);
        assert(lower[0] == 't' && lower[0] == text::lower_char(v[0]));
        assert(lower[1] == 'r' && lower[1] == text::lower_char(v[1]));
        assert(lower[2] == 'u' && lower[2] == text::lower_char(v[2]));
        assert(lower[3] == 'e' && lower[3] == text::lower_char(v[3]));
    }
    if lower == "yes"@ {
        assert(v.len() == 3);
        assert(lower[0] == 'y' && lower[0] == text::lower_char(v[0]));
        assert(lower[1] == 'e' && lower[1] == text::lower_char(v[1]));
        assert(lower[2] == 's' && lower[2] == text::lower_char(v[2]));
    }
}

/// The user's own lock always counts; that of a CI machine counts unless the project
/// says otherwise. Without either the lockfile is written, unless the project says
/// otherwise.
pub proof fn lock_policy_has_four_cases(
    cfg: CookConfig,
    ci: Option<Seq<char>>,
    cook_locked: Option<Seq<char>>,
)
    ensures
        builder::is_switched_on(cook_locked) ==> builder::lock_action(cfg, ci, cook_locked)
            == LockAction::RequireMatch,
        !builder::is_switched_on(cook_locked) && builder::is_switched_on(ci)
            && cfg.build.strict_lock_in_ci ==> builder::lock_action(cfg, ci, cook_locked)
            == LockAction::RequireMatch,
        !builder::is_switched_on(cook_locked) && !(builder::is_switched_on(ci)
            && cfg.build.strict_lock_in_ci) && cfg.resolver.write_lockfile ==> builder::lock_action(
            cfg,
            ci,
            cook_locked,
        ) == LockAction::Write,
        !builder::is_switched_on(cook_locked) && !(builder::is_switched_on(ci)
            && cfg.build.strict_lock_in_ci) && !cfg.resolver.write_lockfile
            ==> builder::lock_action(cfg, ci, cook_locked) == LockAction::Leave,
{
}

/// Before a build the lockfile `cook.lock` is read where it has to match, written with
/// what was found where it is written, and neither where it is left alone.
pub proof fn lockfile_is_handled_as_the_policy_says(
    cfg: CookConfig,
    around: Surroundings,
    lock: lockfile::LockView,
    replies: BuildReplies,
)
    ensures
        ({
            let action = builder::lock_action(
                cfg,
                text::opt_text(around.ci),
                text::opt_text(around.cook_locked),
            );
            let step = builder::locking(cfg, around, lock, replies);
            &&& action == LockAction::Leave ==> step is None
            &&& action == LockAction::Write && replies.lock_written is None ==> step == Some(
                BuildStepView::WriteLock { path: "cook.lock"@, lock },
            )
            &&& action == LockAction::Write && replies.lock_written is Some
                && replies.lock_written->0 is Ok ==> step is None
            &&& action == LockAction::RequireMatch && replies.lock_found is None ==> step == Some(
                BuildStepView::ReadLock("cook.lock"@),
            )
            &&& action == LockAction::RequireMatch && replies.lock_found == Some(
                None::<Result<lockfile::CookLock, Failure>>,
            ) ==> step is Some && step->0 is Failed
            &&& action == LockAction::RequireMatch && step is None ==> (replies.lock_found
                matches Some(Some(Ok(found))) && found@ == lock)
            &&& action == LockAction::RequireMatch ==> (replies.lock_found matches Some(
                Some(Ok(found)),
            ) ==> (found@ == lock ==> step is None) && (found@ != lock ==> step is Some && step->0
                is Failed))
        }),
{
}

/// Locking a project needs the directory `.cook/deps`, writes what was found to
/// `cook.lock`, and says so.
pub proof fn locking_writes_what_was_found(replies: LockReplies, windows: bool)
    ensures
        builder::lock_step(replies, windows) matches LockStepView::WriteLock { path, lock } ==> {
            &&& path == "cook.lock"@
            &&& replies.written is None
            &&& project::project_step(seq![".cook/deps"@], replies.project, windows) matches Ok(
                resolution,
            ) && lock == lockfile::lock_of(resolution)
        },
        builder::lock_step(replies, windows) matches LockStepView::Locked(message) ==> {
            &&& message == "lockfile updated at cook.lock"@
            &&& replies.written matches Some(Ok(_))
            &&& project::project_step(seq![".cook/deps"@], replies.project, windows) is Ok
        },
        replies.written matches Some(Err(_)) ==> !(builder::lock_step(replies, windows) is Locked),
{
}

// ---------------------------------------------------------------------------
// Planning
// ---------------------------------------------------------------------------

/// A plan takes the name, the standard, the compiler and the threads of the project,
/// the flags of its profile, and the sources and dependencies that were found.
pub proof fn plans_follow_the_project(
    cfg: CookConfig,
    profile: BuildProfile,
    sources: Seq<Seq<char>>,
    dependencies: Seq<packages::DependencyView>,
    windows: bool,
)
    ensures
        ({
            let plan = builder::planned(cfg, profile, sources, dependencies, windows);
            let flags = if profile == BuildProfile::Release {
                cfg.build.flags.release
            } else {
                cfg.build.flags.debug
            };
            &&& plan.project_name == cfg.project.name@
            &&& plan.cpp_standard == cfg.project.cpp_standard@
            &&& plan.compiler == cfg.build.compiler
            &&& plan.profile == profile
            &&& plan.build_threads == cfg.build.threads
            &&& plan.optimization == flags.optimization
            &&& plan.fast_math == flags.fast_math
            &&& plan.c_flags == text::texts(flags.c_flags@)
            &&& plan.cxx_flags == text::texts(flags.cxx_flags@)
            &&& plan.target_dir == "target"@
            &&& plan.sources == sources
            &&& plan.dependencies == dependencies
            &&& plan.windows == windows
        }),
        builder::profile_for(true) == BuildProfile::Release,
        builder::profile_for(false) == BuildProfile::Debug,
{
}

/// A build is planned only when the lockfile is settled, all direct dependencies are
/// ready and there are sources under `src`, which are those that the plan compiles.
pub proof fn planned_builds_have_all_they_need(
    profile: BuildProfile,
    around: Surroundings,
    cfg: CookConfig,
    resolution: packages::ResolutionView,
    replies: BuildReplies,
)
    ensures
        builder::planning(profile, around, cfg, resolution, replies) matches Ok(plan) ==> {
            &&& builder::locking(cfg, around, lockfile::lock_of(resolution), replies) is None
            &&& replies.files matches Some(files) && plan.sources == scanner::sources_of(
                around.windows,
                text::texts(files@),
            )
            &&& plan.sources.len() > 0
            &&& externals::externals_step(
                resolution.direct_dependencies,
                profile,
                cfg.build.compiler,
                around.windows,
                replies.externals@,
            ) == Ok::<Seq<packages::DependencyView>, (int, externals::ExternalStepView)>(
                plan.dependencies,
            )
            &&& plan.profile == profile
            &&& plan.project_name == cfg.project.name@
            &&& plan.compiler == cfg.build.compiler
            &&& plan.target_dir == "target"@
        },
        builder::planning(profile, around, cfg, resolution, replies) matches Err(
            BuildStepView::ListFiles(dir),
        ) ==> dir == "src"@,
        builder::planning(profile, around, cfg, resolution, replies) matches Err(
            BuildStepView::WriteLock { path, lock },
        ) ==> path == "cook.lock"@ && lock == lockfile::lock_of(resolution),
        builder::planning(profile, around, cfg, resolution, replies) matches Err(
            BuildStepView::TellResolution(message),
        ) ==> resolution.build_order.len() > 0 && message == "resolved "@ + text::decimal(
            resolution.build_order.len(),
        ) + " transitive package(s)"@,
{
}

/// A build needs four directories, one of them that of its profile, and keeps its
/// fingerprint in a file of its profile, so that those of the profiles are kept apart.
pub proof fn builds_keep_to_their_directories(windows: bool)
    ensures
        builder::needed_dirs(BuildProfile::Debug, windows) == seq![
            ".cook/deps"@,
            "target"@,
            paths::path_join(windows, "target"@, "debug"@),
            "target/.cook-cache"@,
        ],
        builder::needed_dirs(BuildProfile::Release, windows) == seq![
            ".cook/deps"@,
            "target"@,
            paths::path_join(windows, "target"@, "release"@),
            "target/.cook-cache"@,
        ],
        builder::key_path(BuildProfile::Debug, windows) == paths::path_join(
            windows,
            "target/.cook-cache"@,
            "build-debug.fingerprint"@,
        ),
        builder::key_path(BuildProfile::Release, windows) == paths::path_join(
            windows,
            "target/.cook-cache"@,
            "build-release.fingerprint"@,
        ),
{
    reveal_strlit("build-");
    reveal_strlit("debug");
    reveal_strlit("release");
    reveal_strlit(".fingerprint");
    reveal_strlit("build-debug.fingerprint");
    reveal_strlit("build-release.fingerprint");
    assert("build-"@ + "debug"@ + ".fingerprint"@ =~= "build-debug.fingerprint"@);
    assert("build-"@ + "release"@ + ".fingerprint"@ =~= "build-release.fingerprint"@);
}

/// A project is built with the build system that it names: the build file of that
/// system is written to its place, its commands run, configuring before building,
/// and the program is looked for where that system leaves it.
pub proof fn builds_use_the_named_system(plan: PlanView, working_dir: Option<Seq<char>>)
    ensures
        ({
            let cmake = builder::preparation(config::BuildBackend::Cmake, plan, working_dir);
            let make = builder::preparation(config::BuildBackend::Make, plan, working_dir);
            &&& cmake.backend_id == "cmake"@
            &&& cmake.manifest_path == "CMakeLists.txt"@
            &&& cmake.manifest == backends::cmake_text(plan, working_dir)
            &&& cmake.commands == backends::cmake_configure(plan) + backends::cmake_build(plan)
            &&& cmake.artifacts == backends::cmake_artifacts(plan)
            &&& make.backend_id == "make"@
            &&& make.manifest_path == paths::normalized(
                paths::path_join(plan.windows, backends::profile_dir(plan), "Makefile"@),
            )
            &&& make.manifest == backends::make_text(plan)
            &&& make.commands == backends::make_build(plan)
            &&& make.artifacts == backends::plain_artifacts(plan)
            &&& cmake.cache_key_path == builder::key_path(plan.profile, plan.windows)
            &&& make.cache_key_path == builder::key_path(plan.profile, plan.windows)
        }),
{
    let make = builder::preparation(config::BuildBackend::Make, plan, working_dir);
    assert(make.commands =~= backends::make_build(plan));
}

/// The build file that is written is that of the plan and the named system, where the
/// user works, and the fingerprint of the build covers plan, system, lockfile and
/// sources.
pub proof fn written_build_file_is_that_of_the_plan(
    around: Surroundings,
    cfg: CookConfig,
    plan: PlanView,
    lock: lockfile::LockView,
    replies: BuildReplies,
)
    ensures
        builder::readying(around, cfg, plan, lock, replies) matches Err(
            BuildStepView::WriteBuildFile { path, content, .. },
        ) ==> {
            &&& cfg.build.backend == config::BuildBackend::Cmake ==> path == "CMakeLists.txt"@
                && content == backends::cmake_text(plan, text::opt_text(around.working_dir))
            &&& cfg.build.backend == config::BuildBackend::Make ==> path == paths::normalized(
                paths::path_join(plan.windows, backends::profile_dir(plan), "Makefile"@),
            ) && content == backends::make_text(plan)
        },
        builder::readying(around, cfg, plan, lock, replies) matches Err(
            BuildStepView::RenderLock(asked),
        ) ==> asked == lock,
        builder::readying(around, cfg, plan, lock, replies) matches Err(
            BuildStepView::MeasureSources(list),
        ) ==> list == plan.sources,
        builder::readying(around, cfg, plan, lock, replies) matches Ok(build) ==> {
            &&& build.project_name == plan.project_name
            &&& replies.manifest_written matches Some(Ok(_))
            &&& replies.lock_rendered is Some && replies.lock_rendered->0 is Ok
                && replies.facts is Some && build.key == digest::sha256_hex_of(
                vstd::utf8::encode_utf8(
                    cache::fingerprint_text(
                        plan,
                        if cfg.build.backend == config::BuildBackend::Cmake {
                            "cmake"@
                        } else {
                            "make"@
                        },
                        replies.lock_rendered->0->Ok_0@,
                        replies.facts->0@,
                    ),
                ),
            )
        },
{
}

// ---------------------------------------------------------------------------
// Building and running
// ---------------------------------------------------------------------------

proof fn lemma_first_present(list: Seq<Seq<char>>, present: Seq<bool>, i: int)
    requires
        0 <= i < list.len(),
        i < present.len(),
        present[i],
        forall|j: int| 0 <= j < i ==> !#[trigger] present[j],
    ensures
        builder::first_existing(list, present) == Some(list[i]),
    decreases i,
{
    if i > 0 {
        assert(!present[0]);
        assert forall|j: int| 0 <= j < i - 1 implies !#[trigger] present.drop_first()[j] by {
            assert(present.drop_first()[j] == present[j + 1]);
        }
        lemma_first_present(list.drop_first(), present.drop_first(), i - 1);
    }
}

/// Of the places where a program may be, the first one counts that holds it.
pub proof fn first_place_counts(list: Seq<Seq<char>>, present: Seq<bool>, i: int)
    requires
        0 <= i < list.len(),
        i < present.len(),
        present[i],
        forall|j: int| 0 <= j < i ==> !#[trigger] present[j],
    ensures
        builder::first_existing(list, present) == Some(list[i]),
{
    lemma_first_present(list, present, i);
}

/// A build whose fingerprint is on disk is not run where its program is there, and one
/// whose fingerprint is not on disk is run; in the end the fingerprint that was computed
/// is written to its place, and the program is looked for where it may be.
pub proof fn builds_go_on_step_by_step(
    build: builder::ReadyView,
    profile: BuildProfile,
    replies: BuildReplies,
)
    ensures
        ({
            let step = builder::ready_step(build, profile, replies);
            &&& replies.stored_key is None ==> step == BuildStepView::ReadKey(
                build.prepared.cache_key_path,
            )
            &&& step matches BuildStepView::WriteKey { path, key } ==> path
                == build.prepared.cache_key_path && key == build.key
            &&& step matches BuildStepView::LookBefore(list) ==> list == build.prepared.artifacts
            &&& step matches BuildStepView::LookAfter(list) ==> list == build.prepared.artifacts
            &&& step matches BuildStepView::TellHit(message) ==> message
                == "build cache hit, artifact is up-to-date"@ && (replies.stored_key matches Some(
                Ok(Some(stored)),
            ) && text::trimmed(stored@) == build.key) && (replies.present_before matches Some(
                present,
            ) && present@.contains(true))
            &&& step matches BuildStepView::Run(command) ==> exists|i: int|
                0 <= i < build.prepared.commands.len() && i == replies.ran@.len()
                    && #[trigger] build.prepared.commands[i] == command
            &&& step is Built && replies.key_written is None ==> (replies.stored_key matches Some(
                Ok(Some(stored)),
            ) && text::trimmed(stored@) == build.key)
        }),
{
    crate::programs::lemma_successes(replies.ran@);
    let step = builder::ready_step(build, profile, replies);
    if let BuildStepView::Run(command) = step {
        let i = replies.ran@.len() as int;
        assert(build.prepared.commands[i] == command);
    }
}

/// A build that ran and left no program fails, and says where and for which project.
pub proof fn missing_programs_are_complained_of(
    build: builder::ReadyView,
    profile: BuildProfile,
    replies: BuildReplies,
    present: Vec<bool>,
)
    requires
        replies.ran@.len() >= build.prepared.commands.len(),
        forall|i: int|
            0 <= i < replies.ran@.len() ==> crate::programs::succeeded(#[trigger] replies.ran@[i]),
        replies.key_written matches Some(Ok(_)),
        replies.present_after == Some(present),
        forall|i: int| 0 <= i < present@.len() ==> !#[trigger] present@[i],
    ensures
        profile == BuildProfile::Debug ==> builder::build_onward(build, profile, replies)
            == BuildStepView::Failed(
            "build finished but no artifact was found in target/debug for project '"@
                + build.project_name + "'"@,
        ),
        profile == BuildProfile::Release ==> builder::build_onward(build, profile, replies)
            == BuildStepView::Failed(
            "build finished but no artifact was found in target/release for project '"@
                + build.project_name + "'"@,
        ),
{
    crate::programs::lemma_successes(replies.ran@);
    lemma_none_present(build.prepared.artifacts, present@);
    reveal_strlit("build finished but no artifact was found in target/");
    reveal_strlit("debug");
    reveal_strlit("release");
    reveal_strlit(" for project '");
    reveal_strlit("build finished but no artifact was found in target/debug for project '");
    reveal_strlit("build finished but no artifact was found in target/release for project '");
    assert("build finished but no artifact was found in target/"@ + "debug"@ + " for project '"@
        =~= "build finished but no artifact was found in target/debug for project '"@);
    assert("build finished but no artifact was found in target/"@ + "release"@ + " for project '"@
        =~= "build finished but no artifact was found in target/release for project '"@);
}

proof fn lemma_none_present(list: Seq<Seq<char>>, present: Seq<bool>)
    requires
        forall|i: int| 0 <= i < present.len() ==> !#[trigger] present[i],
    ensures
        builder::first_existing(list, present) is None,
    decreases list.len(),
{
    if list.len() > 0 && present.len() > 0 {
        assert(!present[0]);
        assert forall|i: int| 0 <= i < present.drop_first().len() implies !#[trigger] present.drop_first()[i] by {
            assert(present.drop_first()[i] == present[i + 1]);
        }
        lemma_none_present(list.drop_first(), present.drop_first());
    }
}

/// A program that does not succeed is complained of, by its place where it could not be
/// started and by its status otherwise; one that succeeds ends the run.
pub proof fn runs_end_as_the_program_does(
    profile: BuildProfile,
    around: Surroundings,
    replies: BuildReplies,
    outcome: ProgramOutcome,
    path: Seq<char>,
)
    requires
        builder::build_step(profile, around, replies) == BuildStepView::Built(path),
    ensures
        builder::run_step(profile, around, replies, None) == RunStepView::Execute(path),
        outcome is NotStarted ==> builder::run_step(profile, around, replies, Some(outcome))
            == RunStepView::Failed("failed to execute "@ + path),
        outcome matches ProgramOutcome::Ended { success, status, .. } ==> builder::run_step(
            profile,
            around,
            replies,
            Some(outcome),
        ) == (if success {
            RunStepView::Succeeded
        } else {
            RunStepView::Failed("binary execution failed with status "@ + status@)
        }),
{
}

// ---------------------------------------------------------------------------
// The fingerprint
// ---------------------------------------------------------------------------

/// The fingerprint of a build covers the build system, the compiler, the project and
/// its standard, and the lockfile.
pub proof fn fingerprint_covers_the_build(
    plan: PlanView,
    backend_id: Seq<char>,
    lock_rendered: Seq<char>,
    facts: Seq<(Seq<char>, SourceFacts)>,
)
    ensures
        ({
            let whole = cache::fingerprint_text(plan, backend_id, lock_rendered, facts);
            &&& text::has_text(whole, "backend="@ + backend_id + "\ncompiler="@)
            &&& plan.compiler == BuildCompiler::Gcc ==> text::has_text(
                whole,
                "\ncompiler="@ + "Gcc"@ + "\nproject="@,
            )
            &&& plan.compiler == BuildCompiler::Msvc ==> text::has_text(
                whole,
                "\ncompiler="@ + "Msvc"@ + "\nproject="@,
            )
            &&& text::has_text(whole, "\nproject="@ + plan.project_name + "\ncpp_standard="@)
            &&& text::has_text(whole, "\ncpp_standard="@ + plan.cpp_standard + "\n"@ + lock_rendered)
        }),
{
    text::lemma_held();
    text::lemma_ends_are_held();
}

proof fn lemma_source_is_held(
    sources: Seq<Seq<char>>,
    facts: Seq<(Seq<char>, SourceFacts)>,
    i: int,
)
    requires
        0 <= i < sources.len(),
    ensures
        text::has_text(
            cache::sources_text(sources, facts),
            cache::source_text(sources[i], ordered_map::lookup(facts, sources[i])),
        ),
    decreases sources.len(),
{
    text::lemma_held();
    if i < sources.len() - 1 {
        assert(sources.drop_last()[i] == sources[i]);
        lemma_source_is_held(sources.drop_last(), facts, i);
    }
}

proof fn lemma_dependency_is_held(deps: Seq<packages::DependencyView>, i: int)
    requires
        0 <= i < deps.len(),
    ensures
        text::has_text(cache::dependencies_text(deps), cache::dependency_text(deps[i])),
    decreases deps.len(),
{
    text::lemma_held();
    if i < deps.len() - 1 {
        assert(deps.drop_last()[i] == deps[i]);
        lemma_dependency_is_held(deps.drop_last(), i);
    }
}

/// It covers every source, by its name, its size and the time of its last change.
pub proof fn fingerprint_covers_every_source(
    plan: PlanView,
    backend_id: Seq<char>,
    lock_rendered: Seq<char>,
    facts: Seq<(Seq<char>, SourceFacts)>,
    i: int,
)
    requires
        0 <= i < plan.sources.len(),
    ensures
        ({
            let whole = cache::fingerprint_text(plan, backend_id, lock_rendered, facts);
            let source = plan.sources[i];
            let line = "src="@ + source + "\n"@;
            match ordered_map::lookup(facts, source) {
                None => text::has_text(whole, line),
                Some(f) => {
                    let size = "len="@ + text::decimal(f.len as nat) + "\n"@;
                    match f.modified {
                        None => text::has_text(whole, line + size),
                        Some(secs) => text::has_text(
                            whole,
                            line + (size + ("mtime="@ + text::decimal(secs as nat) + "\n"@)),
                        ),
                    }
                },
            }
        }),
{
    text::lemma_held();
    lemma_source_is_held(plan.sources, facts, i);
    let source = plan.sources[i];
    let seen = ordered_map::lookup(facts, source);
    let line = "src="@ + source + "\n"@;
    let part = cache::source_text(source, seen);
    let nothing = Seq::<char>::empty();
    assert(text::has_text(cache::fingerprint_text(plan, backend_id, lock_rendered, facts), part));
    match seen {
        None => {
            assert(part =~= line);
        },
        Some(f) => {
            let size = "len="@ + text::decimal(f.len as nat) + "\n"@;
            if f.modified is None {
                assert(part =~= line + size);
            }
        },
    }
}

/// It covers every dependency: its name, its ABI, its visibility, how and from what it
/// is built, and what it exports.
pub proof fn fingerprint_covers_every_dependency(
    plan: PlanView,
    backend_id: Seq<char>,
    lock_rendered: Seq<char>,
    facts: Seq<(Seq<char>, SourceFacts)>,
    i: int,
)
    requires
        0 <= i < plan.dependencies.len(),
    ensures
        text::has_text(
            cache::fingerprint_text(plan, backend_id, lock_rendered, facts),
            cache::dependency_text(plan.dependencies[i]),
        ),
        ({
            let dep = plan.dependencies[i];
            let part = cache::dependency_text(dep);
            &&& text::has_text(part, "dep="@ + dep.name + "\ndep_abi="@)
            &&& text::has_text(part, "\ndep_abi="@ + dep.abi_fingerprint + "\ndep_vis="@)
            &&& dep.visibility == DependencyVisibility::Public ==> text::has_text(
                part,
                "\ndep_vis="@ + "Public"@ + "\ndep_external="@,
            )
            &&& dep.visibility == DependencyVisibility::Private ==> text::has_text(
                part,
                "\ndep_vis="@ + "Private"@ + "\ndep_external="@,
            )
            &&& dep.external_build_system is None ==> text::has_text(
                part,
                "\ndep_external="@ + "None"@ + "\ndep_external_manifest="@,
            )
            &&& dep.external_build_system == Some(ExternalBuildSystem::Cmake) ==> text::has_text(
                part,
                "\ndep_external="@ + "Some(Cmake)"@ + "\ndep_external_manifest="@,
            )
            &&& dep.external_build_system == Some(ExternalBuildSystem::Make) ==> text::has_text(
                part,
                "\ndep_external="@ + "Some(Make)"@ + "\ndep_external_manifest="@,
            )
            &&& text::has_text(
                part,
                "\ndep_external_manifest="@ + digest::quoted_opt(dep.external_manifest_path),
            )
            &&& text::has_text(
                part,
                "\ndep_external_manifest_hash="@ + digest::quoted_opt(dep.external_manifest_hash),
            )
            &&& text::has_text(
                part,
                "\ndep_external_include_dirs="@ + digest::quoted_list(dep.exports.include_dirs),
            )
            &&& text::has_text(
                part,
                "\ndep_external_lib_dirs="@ + digest::quoted_list(dep.exports.lib_dirs),
            )
            &&& text::has_text(
                part,
                "\ndep_external_libs="@ + digest::quoted_list(dep.exports.libs),
            )
            &&& text::has_text(
                part,
                "\ndep_build_exclude="@ + digest::quoted_list(dep.build.exclude),
            )
            &&& text::has_text(
                part,
                "\ndep_build_configure_args="@ + digest::quoted_list(dep.build.configure_args),
            )
            &&& text::has_text(
                part,
                "\ndep_build_build_args="@ + digest::quoted_list(dep.build.build_args),
            )
            &&& text::has_text(
                part,
                "\ndep_build_install_args="@ + digest::quoted_list(dep.build.install_args),
            )
            &&& text::has_text(
                part,
                "\ndep_build_cmake_defines="@ + digest::quoted_map(dep.build.defines) + "\n"@,
            )
        }),
{
    lemma_dependency_text(plan.dependencies[i]);
    text::lemma_held();
    lemma_dependency_is_held(plan.dependencies, i);
}

proof fn lemma_dependency_text(dep: packages::DependencyView)
    ensures
        ({
            let part = cache::dependency_text(dep);
            &&& text::has_text(part, "dep="@ + dep.name + "\ndep_abi="@)
            &&& text::has_text(part, "\ndep_abi="@ + dep.abi_fingerprint + "\ndep_vis="@)
            &&& text::has_text(
                part,
                "\ndep_vis="@ + cache::shown_visibility(dep.visibility) + "\ndep_external="@,
            )
            &&& text::has_text(
                part,
                "\ndep_external="@ + cache::shown_system(dep.external_build_system)
                    + "\ndep_external_manifest="@,
            )
            &&& text::has_text(
                part,
                "\ndep_external_manifest="@ + digest::quoted_opt(dep.external_manifest_path),
            )
            &&& text::has_text(
                part,
                "\ndep_external_manifest_hash="@ + digest::quoted_opt(dep.external_manifest_hash),
            )
            &&& text::has_text(
                part,
                "\ndep_external_include_dirs="@ + digest::quoted_list(dep.exports.include_dirs),
            )
            &&& text::has_text(
                part,
                "\ndep_external_lib_dirs="@ + digest::quoted_list(dep.exports.lib_dirs),
            )
            &&& text::has_text(
                part,
                "\ndep_external_libs="@ + digest::quoted_list(dep.exports.libs),
            )
            &&& text::has_text(
                part,
                "\ndep_build_exclude="@ + digest::quoted_list(dep.build.exclude),
            )
            &&& text::has_text(
                part,
                "\ndep_build_configure_args="@ + digest::quoted_list(dep.build.configure_args),
            )
            &&& text::has_text(
                part,
                "\ndep_build_build_args="@ + digest::quoted_list(dep.build.build_args),
            )
            &&& text::has_text(
                part,
                "\ndep_build_install_args="@ + digest::quoted_list(dep.build.install_args),
            )
            &&& text::has_text(
                part,
                "\ndep_build_cmake_defines="@ + digest::quoted_map(dep.build.defines) + "\n"@,
            )
        }),
{
    text::lemma_held();
    text::lemma_ends_are_held();
}

// ---------------------------------------------------------------------------
// The project
// ---------------------------------------------------------------------------

/// A project is known by its manifest `cook.toml`; its packages are looked for from
/// where it stands, and without the network exactly if it says so.
pub proof fn projects_are_known_by_their_manifest(
    needed: Seq<Seq<char>>,
    replies: project::ProjectReplies,
    windows: bool,
    cfg: CookConfig,
)
    ensures
        replies.config is None ==> project::project_step(needed, replies, windows) == Err::<
            packages::ResolutionView,
            project::ProjectStepView,
        >(project::ProjectStepView::LoadConfig("cook.toml"@)),
        replies.config is Some && replies.config->0 is Ok && replies.directories is None
            ==> project::project_step(needed, replies, windows) == Err::<
            packages::ResolutionView,
            project::ProjectStepView,
        >(project::ProjectStepView::CreateDirectories(needed)),
        project::project_step(needed, replies, windows) matches Err(
            project::ProjectStepView::Locate(path),
        ) ==> path == "cook.toml"@,
        project::walk_options(cfg, windows).offline == cfg.build.offline,
        project::walk_options(cfg, windows).workspace_root == "."@,
        project::walk_options(cfg, windows).windows == windows,
{
}

}
