//! The build cache: a build is not repeated while nothing that it depends on changes.
use vstd::prelude::*;
use vstd::string::*;

use crate::backends;
use crate::backends::BuildPlan;
use crate::config::{BuildCompiler, DependencyVisibility};
use crate::digest;
use crate::ordered_map;
use crate::ordered_map::OrderedMap;
use crate::packages;
use crate::packages::{ExternalBuildSystem, ResolvedDependency};
use crate::text;

verus! {

broadcast use vstd::string::group_string_axioms;

/// What is known of a source file.
#[derive(Debug, Clone, Copy)]
pub struct SourceFacts {
    /// Its size in bytes.
    pub len: u64,
    /// The seconds from 1970 to its last change, if they are known.
    pub modified: Option<u64>,
}

// ---------------------------------------------------------------------------
// Model
// ---------------------------------------------------------------------------

/// How a compiler is written into the fingerprint.
pub open spec fn shown_compiler(compiler: BuildCompiler) -> Seq<char> {
    match compiler {
        BuildCompiler::Gcc => "Gcc"@,
        BuildCompiler::Msvc => "Msvc"@,
    }
}

/// How a visibility is written into the fingerprint.
pub open spec fn shown_visibility(visibility: DependencyVisibility) -> Seq<char> {
    match visibility {
        DependencyVisibility::Public => "Public"@,
        DependencyVisibility::Private => "Private"@,
    }
}

/// How an external build system is written into the fingerprint.
pub open spec fn shown_system(system: Option<ExternalBuildSystem>) -> Seq<char> {
    match system {
        None => "None"@,
        Some(ExternalBuildSystem::Cmake) => "Some(Cmake)"@,
        Some(ExternalBuildSystem::Make) => "Some(Make)"@,
    }
}

/// What a source file adds to the fingerprint.
pub open spec fn source_text(source: Seq<char>, facts: Option<SourceFacts>) -> Seq<char> {
    "src="@ + source + "\n"@ + (match facts {
        None => Seq::empty(),
        Some(f) => "len="@ + text::decimal(f.len as nat) + "\n"@ + (match f.modified {
            None => Seq::empty(),
            Some(secs) => "mtime="@ + text::decimal(secs as nat) + "\n"@,
        }),
    })
}

/// What the source files add to the fingerprint.
pub open spec fn sources_text(
    sources: Seq<Seq<char>>,
    facts: Seq<(Seq<char>, SourceFacts)>,
) -> Seq<char>
    decreases sources.len(),
{
    if sources.len() == 0 {
        Seq::empty()
    } else {
        sources_text(sources.drop_last(), facts) + source_text(
            sources.last(),
            ordered_map::lookup(facts, sources.last()),
        )
    }
}

/// What a dependency adds to the fingerprint.
pub open spec fn dependency_text(dep: packages::DependencyView) -> Seq<char> {
    "dep="@ + dep.name + "\ndep_abi="@ + dep.abi_fingerprint + "\ndep_vis="@ + shown_visibility(
        dep.visibility,
    ) + "\ndep_external="@ + shown_system(dep.external_build_system)
        + "\ndep_external_manifest="@ + digest::quoted_opt(dep.external_manifest_path)
        + "\ndep_external_manifest_hash="@ + digest::quoted_opt(dep.external_manifest_hash)
        + "\ndep_external_include_dirs="@ + digest::quoted_list(dep.exports.include_dirs)
        + "\ndep_external_lib_dirs="@ + digest::quoted_list(dep.exports.lib_dirs)
        + "\ndep_external_libs="@ + digest::quoted_list(dep.exports.libs)
        + "\ndep_build_exclude="@ + digest::quoted_list(dep.build.exclude)
        + "\ndep_build_configure_args="@ + digest::quoted_list(dep.build.configure_args)
        + "\ndep_build_build_args="@ + digest::quoted_list(dep.build.build_args)
        + "\ndep_build_install_args="@ + digest::quoted_list(dep.build.install_args)
        + "\ndep_build_cmake_defines="@ + digest::quoted_map(dep.build.defines) + "\n"@
}

/// What the dependencies add to the fingerprint.
pub open spec fn dependencies_text(deps: Seq<packages::DependencyView>) -> Seq<char>
    decreases deps.len(),
{
    if deps.len() == 0 {
        Seq::empty()
    } else {
        dependencies_text(deps.drop_last()) + dependency_text(deps.last())
    }
}

/// The text over which the fingerprint of a build is taken.
pub open spec fn fingerprint_text(
    plan: backends::PlanView,
    backend_id: Seq<char>,
    lock_rendered: Seq<char>,
    facts: Seq<(Seq<char>, SourceFacts)>,
) -> Seq<char> {
    "backend="@ + backend_id + "\ncompiler="@ + shown_compiler(plan.compiler) + "\nproject="@
        + plan.project_name + "\ncpp_standard="@ + plan.cpp_standard + "\n"@ + lock_rendered
        + sources_text(plan.sources, facts) + dependencies_text(plan.dependencies)
}

/// A build can be left out: the fingerprint on disk is the expected one, and its
/// result is there.
pub open spec fn is_hit(
    stored: Option<Seq<char>>,
    expected_key: Seq<char>,
    present: Seq<bool>,
) -> bool {
    stored is Some && text::trimmed(stored->0) == expected_key && present.contains(true)
}

proof fn lemma_sources_text(
    sources: Seq<Seq<char>>,
    facts: Seq<(Seq<char>, SourceFacts)>,
    other: Seq<(Seq<char>, SourceFacts)>,
)
    requires
        forall|i: int|
            0 <= i < sources.len() ==> ordered_map::lookup(facts, #[trigger] sources[i])
                == ordered_map::lookup(other, sources[i]),
    ensures
        sources_text(sources, facts) == sources_text(sources, other),
    decreases sources.len(),
{
    if sources.len() > 0 {
        assert forall|i: int| 0 <= i < sources.len() - 1 implies ordered_map::lookup(
            facts,
            #[trigger] sources.drop_last()[i],
        ) == ordered_map::lookup(other, sources.drop_last()[i]) by {
            assert(sources.drop_last()[i] == sources[i]);
        }
        lemma_sources_text(sources.drop_last(), facts, other);
    }
}

/// The fingerprint of a build rests on the plan, the backend, the lockfile and what
/// is seen of the source files of the plan, and on nothing else.
pub proof fn fingerprint_rests_on_the_sources(
    plan: backends::PlanView,
    backend_id: Seq<char>,
    lock_rendered: Seq<char>,
    facts: Seq<(Seq<char>, SourceFacts)>,
    other: Seq<(Seq<char>, SourceFacts)>,
)
    requires
        forall|i: int|
            0 <= i < plan.sources.len() ==> ordered_map::lookup(facts, #[trigger] plan.sources[i])
                == ordered_map::lookup(other, plan.sources[i]),
    ensures
        fingerprint_text(plan, backend_id, lock_rendered, facts) == fingerprint_text(
            plan,
            backend_id,
            lock_rendered,
            other,
        ),
{
    lemma_sources_text(plan.sources, facts, other);
}

/// A source file that cannot be read still counts, by its name alone.
pub proof fn missing_source_counts_by_name(
    sources: Seq<Seq<char>>,
    missing: Seq<char>,
    facts: Seq<(Seq<char>, SourceFacts)>,
)
    requires
        ordered_map::lookup(facts, missing) is None,
    ensures
        sources_text(sources.push(missing), facts) == sources_text(sources, facts) + ("src="@
            + missing + "\n"@),
{
    assert(sources.push(missing).drop_last() =~= sources);
    let line = "src="@ + missing + "\n"@;
    assert(source_text(missing, None) =~= line);
}

/// After a build has written its fingerprint, the same build is a hit exactly
/// as long as its result is there.
pub proof fn written_key_is_hit(key: Seq<char>, present: Seq<bool>)
    requires
        text::trimmed(key) == key,
    ensures
        is_hit(Some(key), key, present) == present.contains(true),
{
}

/// A build whose fingerprint has changed is not left out.
pub proof fn other_key_is_no_hit(key: Seq<char>, expected_key: Seq<char>, present: Seq<bool>)
    requires
        text::trimmed(key) == key,
        key != expected_key,
    ensures
        !is_hit(Some(key), expected_key, present),
{
}

// ---------------------------------------------------------------------------
// Functions
// ---------------------------------------------------------------------------

fn show_compiler(compiler: BuildCompiler) -> (r: &'static str)
    ensures
        r@ == shown_compiler(compiler),
{
    match compiler {
        BuildCompiler::Gcc => "Gcc",
        BuildCompiler::Msvc => "Msvc",
    }
}

fn show_visibility(visibility: DependencyVisibility) -> (r: &'static str)
    ensures
        r@ == shown_visibility(visibility),
{
    match visibility {
        DependencyVisibility::Public => "Public",
        DependencyVisibility::Private => "Private",
    }
}

fn show_system(system: Option<ExternalBuildSystem>) -> (r: &'static str)
    ensures
        r@ == shown_system(system),
{
    match system {
        None => "None",
        Some(ExternalBuildSystem::Cmake) => "Some(Cmake)",
        Some(ExternalBuildSystem::Make) => "Some(Make)",
    }
}

fn write_source(out: &mut String, source: &str, facts: Option<&SourceFacts>)
    ensures
        final(out)@ == old(out)@ + source_text(
            source@,
            match facts {
                Some(f) => Some(*f),
                None => None,
            },
        ),
{
    let ghost before = out@;
    out.append("src=");
    out.append(source);
    out.append("\n");
    if let Some(f) = facts {
        out.append("len=");
        out.append(text::to_decimal(f.len).as_str());
        out.append("\n");
        if let Some(secs) = f.modified {
            out.append("mtime=");
            out.append(text::to_decimal(secs).as_str());
            out.append("\n");
        }
    }
    assert(out@ =~= before + source_text(
        source@,
        match facts {
            Some(f) => Some(*f),
            None => None,
        },
    ));
}

fn write_dependency(out: &mut String, dep: &ResolvedDependency)
    ensures
        final(out)@ == old(out)@ + dependency_text(dep@),
{
    let mut part = "dep=".to_owned();
    part.append(dep.name.as_str());
    part.append("\ndep_abi=");
    part.append(dep.abi_fingerprint.as_str());
    part.append("\ndep_vis=");
    part.append(show_visibility(dep.visibility));
    part.append("\ndep_external=");
    part.append(show_system(dep.external_build_system));
    part.append("\ndep_external_manifest=");
    part.append(digest::quote_opt(&dep.external_manifest_path).as_str());
    part.append("\ndep_external_manifest_hash=");
    part.append(digest::quote_opt(&dep.external_manifest_hash).as_str());
    part.append("\ndep_external_include_dirs=");
    part.append(digest::quote_list(&dep.exports.include_dirs).as_str());
    part.append("\ndep_external_lib_dirs=");
    part.append(digest::quote_list(&dep.exports.lib_dirs).as_str());
    part.append("\ndep_external_libs=");
    part.append(digest::quote_list(&dep.exports.libs).as_str());
    part.append("\ndep_build_exclude=");
    part.append(digest::quote_list(&dep.build.exclude).as_str());
    part.append("\ndep_build_configure_args=");
    part.append(digest::quote_list(&dep.build.configure_args).as_str());
    part.append("\ndep_build_build_args=");
    part.append(digest::quote_list(&dep.build.build_args).as_str());
    part.append("\ndep_build_install_args=");
    part.append(digest::quote_list(&dep.build.install_args).as_str());
    part.append("\ndep_build_cmake_defines=");
    part.append(digest::quote_map(&dep.build.cmake.defines).as_str());
    part.append("\n");
    out.append(part.as_str());
}

/// The fingerprint of a build. `lock_rendered` is the lockfile as it is written;
/// `facts` tells of the source files that can be read.
pub fn compute_build_fingerprint(
    plan: &BuildPlan,
    backend_id: &str,
    lock_rendered: &str,
    facts: &OrderedMap<SourceFacts>,
) -> (r: String)
    ensures
        r@ == digest::text_digest(
            fingerprint_text(plan@, backend_id@, lock_rendered@, facts@),
        ),
        digest::is_digest(r@),
        text::trimmed(r@) == r@,
{
    let mut out = "backend=".to_owned();
    out.append(backend_id);
    out.append("\ncompiler=");
    out.append(show_compiler(plan.compiler));
    out.append("\nproject=");
    out.append(plan.project_name.as_str());
    out.append("\ncpp_standard=");
    out.append(plan.cpp_standard.as_str());
    out.append("\n");
    out.append(lock_rendered);
    let ghost head = out@;
    let ghost sources = plan@.sources;
    let mut i: usize = 0;
    assert(out@ =~= head + sources_text(sources.take(0), facts@));
    while i < plan.sources.len()
        invariant
            i <= plan.sources@.len(),
            sources == plan@.sources,
            out@ == head + sources_text(sources.take(i as int), facts@),
        decreases plan.sources.len() - i,
    {
        let ghost before = sources_text(sources.take(i as int), facts@);
        let source = plan.sources[i].as_str();
        let found = facts.get(source);
        write_source(&mut out, source, found);
        assert(sources.take(i + 1).drop_last() == sources.take(i as int));
        assert(sources.take(i + 1).last() == source@);
        let ghost more = source_text(source@, ordered_map::lookup(facts@, source@));
        assert((head + before) + more =~= head + (before + more));
        i += 1;
    }
    assert(sources.take(sources.len() as int) == sources);
    let ghost head = out@;
    let ghost deps = plan@.dependencies;
    let mut i: usize = 0;
    assert(out@ =~= head + dependencies_text(deps.take(0)));
    while i < plan.dependencies.len()
        invariant
            i <= plan.dependencies@.len(),
            deps == plan@.dependencies,
            out@ == head + dependencies_text(deps.take(i as int)),
        decreases plan.dependencies.len() - i,
    {
        let ghost before = dependencies_text(deps.take(i as int));
        write_dependency(&mut out, &plan.dependencies[i]);
        assert(deps.take(i + 1).drop_last() == deps.take(i as int));
        let ghost more = dependency_text(plan.dependencies@[i as int]@);
        assert(deps.take(i + 1).last() == plan.dependencies@[i as int]@);
        assert((head + before) + more =~= head + (before + more));
        i += 1;
    }
    assert(deps.take(deps.len() as int) == deps);
    digest::digest_of_text(out.as_str())
}

/// Whether a build can be left out. `stored` is the fingerprint on disk, if there
/// is one; `present` tells of each place for the result whether it is there.
pub fn cache_hit(stored: Option<&str>, expected_key: &str, present: &Vec<bool>) -> (r: bool)
    ensures
        r == is_hit(
            match stored {
                Some(s) => Some(s@),
                None => None,
            },
            expected_key@,
            present@,
        ),
{
    match stored {
        None => false,
        Some(current) => {
            if !text::same_text(text::trim(current).as_str(), expected_key) {
                return false;
            }
            let mut i: usize = 0;
            while i < present.len()
                invariant
                    i <= present@.len(),
                    text::trimmed(current@) == expected_key@,
                    stored == Some(current),
                    forall|j: int| 0 <= j < i ==> !present@[j],
                decreases present.len() - i,
            {
                if present[i] {
                    assert(present@[i as int] == true);
                    return true;
                }
                i += 1;
            }
            false
        },
    }
}

}
