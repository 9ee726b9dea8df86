use cook::generator::generate_cmake;
use cook::scanner::discover_files;

fn strings(items: &[&str]) -> Vec<String> {
    items.iter().map(|s| s.to_string()).collect()
}

#[test]
fn source_files_are_listed_in_order_and_once() {
    let files = strings(&[
        "src/z.cpp", "src/a.C", "src/notes.txt", "./src/b.cc", "src\\win\\c.cxx", "src/z.cpp",
        "src/Makefile", "src/.c", "src/d.h",
    ]);
    assert_eq!(
        discover_files(&files, false),
        strings(&["src/a.C", "src/b.cc", "src/win/c.cxx", "src/z.cpp"])
    );
}

#[test]
fn listing_does_not_depend_on_the_order_of_files() {
    let a = discover_files(&strings(&["src/b.c", "src/a.c"]), false);
    let b = discover_files(&strings(&["src/a.c", "src/b.c", "src/a.c"]), false);
    assert_eq!(a, b);
}

#[test]
fn no_files_no_sources() {
    assert!(discover_files(&Vec::new(), false).is_empty());
}

#[test]
fn plain_cmake_file() {
    assert_eq!(
        generate_cmake("app", "20", &strings(&["src/a.cpp", "src/b.cpp"]), &strings(&["x", "y"])),
        "cmake_minimum_required(VERSION 3.15)
project(app CXX)

set(CMAKE_CXX_STANDARD 20)
set(CMAKE_CXX_STANDARD_REQUIRED ON)
set(CMAKE_EXPORT_COMPILE_COMMANDS ON)

add_subdirectory(.cook/deps/x)
add_subdirectory(.cook/deps/y)

add_executable(app
    src/a.cpp
    src/b.cpp
)

if(NOT \"x y\" STREQUAL \"\")
    target_link_libraries(app PRIVATE x y)
endif()
"
    );
}

#[test]
fn sources_are_named_by_the_rules_of_the_system() {
    let files = strings(&[".\\src\\a.c", "src\\b.CPP", "src.c\\x", "src\\.c"]);
    assert_eq!(discover_files(&files, true), strings(&["src/a.c", "src/b.CPP"]));
    assert_eq!(
        discover_files(&files, false),
        strings(&["./src/a.c", "src/.c", "src/b.CPP"])
    );
}
