//! A plain `CMakeLists.txt` for a project whose dependencies stand in `.cook/deps`.
use vstd::prelude::*;
use vstd::string::*;

use crate::text;

verus! {

broadcast use vstd::string::group_string_axioms;

/// The text of the build file.
pub open spec fn plain_cmake_text(
    name: Seq<char>,
    cpp_standard: Seq<char>,
    sources: Seq<Seq<char>>,
    dependencies: Seq<Seq<char>>,
) -> Seq<char> {
    let links = text::joined(dependencies, " "@);
    "cmake_minimum_required(VERSION 3.15)\nproject("@ + name + " CXX)\n\nset(CMAKE_CXX_STANDARD "@
        + cpp_standard
        + ")\nset(CMAKE_CXX_STANDARD_REQUIRED ON)\nset(CMAKE_EXPORT_COMPILE_COMMANDS ON)\n\n"@
        + text::joined(text::each(dependencies, "add_subdirectory(.cook/deps/"@, ")"@), "\n"@)
        + "\n\nadd_executable("@ + name + "\n    "@ + text::joined(sources, "\n    "@)
        + "\n)\n\nif(NOT \""@ + links + "\" STREQUAL \"\")\n    target_link_libraries("@ + name
        + " PRIVATE "@ + links + ")\nendif()\n"@
}

/// The build file of a project.
pub fn generate_cmake(
    name: &str,
    cpp_standard: &str,
    sources: &Vec<String>,
    dependencies: &Vec<String>,
) -> (r: String)
    ensures
        r@ == plain_cmake_text(
            name@,
            cpp_standard@,
            text::texts(sources@),
            text::texts(dependencies@),
        ),
{
    let added = text::wrap_each(dependencies, "add_subdirectory(.cook/deps/", ")");
    let links = text::join(dependencies, " ");
    let mut out = "cmake_minimum_required(VERSION 3.15)\nproject(".to_owned();
    out.append(name);
    out.append(" CXX)\n\nset(CMAKE_CXX_STANDARD ");
    out.append(cpp_standard);
    out.append(
        ")\nset(CMAKE_CXX_STANDARD_REQUIRED ON)\nset(CMAKE_EXPORT_COMPILE_COMMANDS ON)\n\n",
    );
    out.append(text::join(&added, "\n").as_str());
    out.append("\n\nadd_executable(");
    out.append(name);
    out.append("\n    ");
    out.append(text::join(sources, "\n    ").as_str());
    out.append("\n)\n\nif(NOT \"");
    out.append(links.as_str());
    out.append("\" STREQUAL \"\")\n    target_link_libraries(");
    out.append(name);
    out.append(" PRIVATE ");
    out.append(links.as_str());
    out.append(")\nendif()\n");
    out
}

// ---------------------------------------------------------------------------
// Laws
// ---------------------------------------------------------------------------

/// The build file names the project, its standard, every source and every
/// dependency, which is added from `.cook/deps` and linked.
pub proof fn build_file_names_everything(
    name: Seq<char>,
    cpp_standard: Seq<char>,
    sources: Seq<Seq<char>>,
    dependencies: Seq<Seq<char>>,
    i: int,
)
    ensures
        ({
            let whole = plain_cmake_text(name, cpp_standard, sources, dependencies);
            &&& ("cmake_minimum_required(VERSION 3.15)\nproject("@ + name
                + " CXX)\n\nset(CMAKE_CXX_STANDARD "@ + cpp_standard).is_prefix_of(whole)
            &&& text::has_text(whole, "\n\nadd_executable("@ + name + "\n    "@)
            &&& 0 <= i < sources.len() ==> text::has_text(whole, sources[i])
            &&& 0 <= i < dependencies.len() ==> text::has_text(
                whole,
                "add_subdirectory(.cook/deps/"@ + dependencies[i] + ")"@,
            )
            &&& text::has_text(
                whole,
                "\n)\n\nif(NOT \""@ + text::joined(dependencies, " "@)
                    + "\" STREQUAL \"\")\n    target_link_libraries("@ + name,
            )
            &&& text::has_text(
                whole,
                name + " PRIVATE "@ + text::joined(dependencies, " "@) + ")\nendif()\n"@,
            )
            &&& 0 <= i < dependencies.len() ==> text::has_text(
                text::joined(dependencies, " "@),
                dependencies[i],
            )
        }),
{
    text::lemma_held();
    text::lemma_ends_are_held();
    text::lemma_beginnings_are_kept();
    let front = "cmake_minimum_required(VERSION 3.15)\nproject("@ + name
        + " CXX)\n\nset(CMAKE_CXX_STANDARD "@ + cpp_standard;
    assert(front.subrange(0, front.len() as int) =~= front);
    if 0 <= i < sources.len() {
        text::joined_items_are_held(sources, "\n    "@, i);
    }
    if 0 <= i < dependencies.len() {
        let lines = text::each(dependencies, "add_subdirectory(.cook/deps/"@, ")"@);
        text::joined_items_are_held(lines, "\n"@, i);
        assert(lines[i] == "add_subdirectory(.cook/deps/"@ + dependencies[i] + ")"@);
        text::joined_items_are_held(dependencies, " "@, i);
    }
}

}
