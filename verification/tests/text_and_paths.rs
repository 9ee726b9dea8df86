use cook::digest::{digest_of_bytes, digest_of_text, quote_list, quote_map, quote_opt, show_flag};
use cook::ordered_map::OrderedMap;
use cook::paths;
use cook::text;

fn strings(items: &[&str]) -> Vec<String> {
    items.iter().map(|s| s.to_string()).collect()
}

#[test]
fn trimming_follows_unicode_white_space() {
    assert_eq!(text::trim(" \t\u{2003}a b\u{a0}\n"), "a b");
    assert_eq!(text::trim(""), "");
    assert!(text::blank(" \u{3000} "));
    assert!(!text::blank(" x "));
}

#[test]
fn stripping_takes_copies_from_both_sides() {
    assert_eq!(text::strip_char("''a'b''", '\''), "a'b");
    assert_eq!(text::strip_char("\"\"", '"'), "");
    assert_eq!(text::strip_char_end("http://x//", '/'), "http://x");
}

#[test]
fn case_is_folded_for_ascii_only() {
    assert_eq!(text::to_lower("AbZ-Ä"), "abz-Ä");
    assert!(text::same_ignoring_case("Raylib", "rAYLIB"));
    assert!(!text::same_ignoring_case("ä", "Ä"));
}

#[test]
fn replacing_and_searching() {
    assert_eq!(text::replace("a\\b\\", '\\', "/"), "a/b/");
    assert!(text::contains("x.zip?raw=1", ".zip?"));
    assert!(!text::contains("x.zip", ".zip?"));
    assert!(text::contains("abc", ""));
    assert!(text::starts_with("-lfoo", "-l"));
    assert!(!text::starts_with("-", "-l"));
    assert!(text::ends_with("a.git", ".git"));
    assert!(!text::ends_with("git", ".git"));
    assert_eq!(text::strip_prefix("Libs: -lm", "Libs:"), Some(" -lm".to_string()));
    assert_eq!(text::strip_prefix("libs:", "Libs:"), None);
}

#[test]
fn splitting_and_joining() {
    assert_eq!(text::split_on("1..2", '.'), strings(&["1", "", "2"]));
    assert_eq!(text::split_on("", '.'), strings(&[""]));
    assert_eq!(text::split_words("  a \n b\tc "), strings(&["a", "b", "c"]));
    assert_eq!(text::join(&strings(&["a", "b", "c"]), ", "), "a, b, c");
    assert_eq!(text::join(&strings(&[]), ", "), "");
}

#[test]
fn texts_are_ordered_by_code_points() {
    assert!(text::text_before("a", "b"));
    assert!(text::text_before("a", "ab"));
    assert!(!text::text_before("ab", "ab"));
    assert!(text::text_before("Z", "a"));
    assert!(text::text_before("z", "é"));
}

#[test]
fn numbers_are_written_in_decimal() {
    assert_eq!(text::to_decimal(0), "0");
    assert_eq!(text::to_decimal(1907), "1907");
    assert_eq!(text::to_decimal(u64::MAX), "18446744073709551615");
}

#[test]
fn pushing_unique_keeps_items_distinct() {
    let mut list = strings(&["a"]);
    text::push_unique(&mut list, "b".to_string());
    text::push_unique(&mut list, "a".to_string());
    assert_eq!(list, strings(&["a", "b"]));
}

#[test]
fn normalized_paths_use_slashes() {
    assert_eq!(paths::normalize_path("a\\b/c"), "a/b/c");
    assert_eq!(paths::normalize_path("\\\\?\\C:\\x"), "C:/x");
    assert_eq!(paths::normalize_path("\\\\?\\UNC\\host\\share"), "//host/share");
    let once = paths::normalize_path("\\\\?\\C:\\x\\y");
    assert_eq!(paths::normalize_path(&once), once);
}

#[test]
fn joining_paths() {
    assert_eq!(paths::join(false, "a", "b"), "a/b");
    assert_eq!(paths::join(false, "a/", "b"), "a/b");
    assert_eq!(paths::join(false, "", "b"), "b");
    assert_eq!(paths::join(false, "a", "/b"), "/b");
    assert_eq!(paths::join(false, "a", ""), "a/");
}

#[test]
fn path_functions_agree_with_the_standard_library() {
    for path in [
        "/w/p/cook.toml", "cook.toml", "a/b/", "a/./", "/", "", "a//b", "a/b/.", "..", "a/..",
        ".hidden", "a.tar.gz", "x.", "./a", "src/main.cpp",
    ] {
        let std_path = std::path::Path::new(path);
        assert_eq!(
            paths::parent_of(false, path).map(|p| std::path::PathBuf::from(p)),
            std_path.parent().map(|p| p.to_path_buf()),
            "parent of {path:?}"
        );
        assert_eq!(
            paths::file_name_of(false, path),
            std_path.file_name().map(|n| n.to_string_lossy().into_owned()),
            "file name of {path:?}"
        );
        assert_eq!(
            paths::extension_of(false, path),
            std_path.extension().map(|n| n.to_string_lossy().into_owned()),
            "extension of {path:?}"
        );
    }
}

#[test]
fn manifests_are_labelled_by_their_directory() {
    assert_eq!(paths::label_for_manifest(false, "/w/app/cook.toml"), "app");
    assert_eq!(paths::label_for_manifest(false, "/cook.toml"), "/cook.toml");
}

#[test]
fn digests_are_sha256() {
    assert_eq!(
        digest_of_text(""),
        "e3b0c44298fc1c149afbf4c8996fb92427ae41e4649b934ca495991b7852b855"
    );
    assert_eq!(
        digest_of_bytes(&b"abc".to_vec()),
        "ba7816bf8f01cfea414140de5dae2223b00361a396177a9cb410ff61f20015ad"
    );
}

#[test]
fn quoting_follows_debug_formatting() {
    let words = strings(&["a\"b", "c\nd"]);
    assert_eq!(quote_list(&words), format!("{:?}", words));
    assert_eq!(quote_opt(&Some("x".to_string())), "Some(\"x\")");
    assert_eq!(quote_opt(&None), "None");
    assert_eq!(show_flag(Some(true)), "Some(true)");
    assert_eq!(show_flag(Some(false)), "Some(false)");
    assert_eq!(show_flag(None), "None");
    let mut map: OrderedMap<String> = OrderedMap::new();
    map.insert("b".to_string(), "2".to_string());
    map.insert("a".to_string(), "1".to_string());
    assert_eq!(quote_map(&map), "{\"a\": \"1\", \"b\": \"2\"}");
}

#[test]
fn ordered_map_keeps_each_key_once_and_in_order() {
    let mut map: OrderedMap<u32> = OrderedMap::new();
    map.insert("b".to_string(), 1);
    map.insert("a".to_string(), 2);
    map.insert("b".to_string(), 3);
    assert_eq!(map.len(), 2);
    assert_eq!(map.key_at(0), "a");
    assert_eq!(map.key_at(1), "b");
    assert_eq!(*map.value_at(1), 3);
    assert_eq!(map.get("a"), Some(&2));
    assert_eq!(map.get("c"), None);
    assert!(map.contains_key("b"));
    let copy = map.clone();
    assert_eq!(copy.get("b"), Some(&3));
}

#[test]
fn joining_agrees_with_the_standard_library() {
    let windows = std::path::MAIN_SEPARATOR == '\\';
    let list = ["", ".", "..", "a", "a/", "/", "/b", "a/../b", "./c", "C:", "C:\\x", "\\y", "//s/t"];
    for base in list {
        for part in list {
            assert_eq!(
                paths::join(windows, base, part),
                std::path::Path::new(base).join(part).to_string_lossy(),
                "{base:?} and {part:?}"
            );
        }
        assert_eq!(
            paths::is_absolute_path(windows, base),
            std::path::Path::new(base).is_absolute(),
            "{base:?}"
        );
    }
}

#[test]
fn windows_paths_are_joined() {
    let join = |base: &str, part: &str| paths::join(true, base, part);
    assert_eq!(join("a", "b"), "a\\b");
    assert_eq!(join("a/", "b"), "a/b");
    assert_eq!(join("a\\", "b"), "a\\b");
    assert_eq!(join("", "b"), "b");
    assert_eq!(join("C:\\a", "b/c"), "C:\\a\\b/c");
    // an absolute path or another drive replaces
    assert_eq!(join("C:\\a", "D:\\b"), "D:\\b");
    assert_eq!(join("C:\\a", "D:b"), "D:b");
    assert_eq!(join("C:\\a", "\\\\s\\t\\b"), "\\\\s\\t\\b");
    // a root keeps the drive or the share
    assert_eq!(join("C:\\a", "\\b"), "C:\\b");
    assert_eq!(join("\\\\s\\t\\a", "/b"), "\\\\s\\t/b");
    // a bare drive gets no separator
    assert_eq!(join("C:", "b"), "C:b");
    assert_eq!(join("C:\\", "b"), "C:\\b");
}

#[test]
fn verbatim_paths_are_joined_without_dots() {
    let join = |base: &str, part: &str| paths::join(true, base, part);
    assert_eq!(join("\\\\?\\C:\\a\\b", "../c"), "\\\\?\\C:\\a\\c");
    assert_eq!(join("\\\\?\\C:\\a", "./b/./c"), "\\\\?\\C:\\a\\b\\c");
    assert_eq!(join("\\\\?\\C:\\a", "..\\..\\.."), "\\\\?\\C:\\");
    assert_eq!(join("\\\\?\\C:\\a", "\\b"), "\\\\?\\C:\\b");
    assert_eq!(join("\\\\?\\C:\\a", ""), "\\\\?\\C:\\a\\");
    assert_eq!(join("\\\\?\\C:\\a", "D:\\b"), "D:\\b");
    assert_eq!(join("\\\\?\\UNC\\s\\t\\a", "..\\b"), "\\\\?\\UNC\\s\\t\\b");
    assert_eq!(join("\\\\?\\C:", "b"), "\\\\?\\C:\\b");
    assert_eq!(join("\\\\?\\C:/a", "b"), "\\\\?\\C:\\a\\b");
    assert_eq!(join("\\\\?\\C:\\a\\..", ".."), "\\\\?\\C:\\a\\..");
}

#[test]
fn windows_paths_have_parents_names_and_extensions() {
    let parent = |path: &str| paths::parent_of(true, path);
    let some = |path: &str| Some(path.to_string());
    assert_eq!(parent("C:\\a\\b"), some("C:\\a"));
    assert_eq!(parent("C:\\a/b\\"), some("C:\\a"));
    assert_eq!(parent("C:\\a"), some("C:\\"));
    assert_eq!(parent("C:a"), some("C:"));
    assert_eq!(parent("C:\\"), None);
    assert_eq!(parent("C:"), None);
    assert_eq!(parent("\\\\s\\t\\a"), some("\\\\s\\t\\"));
    assert_eq!(parent("\\\\s\\t"), None);
    assert_eq!(parent("\\\\?\\C:\\a\\cook.toml"), some("\\\\?\\C:\\a"));
    assert_eq!(parent("\\\\?\\C:\\a/b"), some("\\\\?\\C:\\"));
    assert_eq!(paths::file_name_of(true, "C:\\a\\b.c"), some("b.c"));
    assert_eq!(paths::file_name_of(true, "C:b.c"), some("b.c"));
    assert_eq!(paths::file_name_of(true, "C:\\"), None);
    assert_eq!(paths::file_name_of(true, "\\\\?\\C:\\a/b"), some("a/b"));
    assert_eq!(paths::extension_of(true, "a.b\\c"), None);
    assert_eq!(paths::extension_of(true, "a\\c.d"), some("d"));
    assert_eq!(paths::extension_of(false, "a.b\\c"), some("b\\c"));
    assert_eq!(paths::label_for_manifest(true, "\\\\?\\C:\\w\\app\\cook.toml"), "app");
}

#[test]
fn windows_paths_are_absolute_with_a_drive_and_a_root() {
    let absolute = |path: &str| paths::is_absolute_path(true, path);
    assert!(absolute("c:\\windows"));
    assert!(absolute("c:/windows"));
    assert!(!absolute("c:temp"));
    assert!(!absolute("\\temp"));
    assert!(!absolute("/temp"));
    assert!(absolute("\\\\server\\share"));
    assert!(absolute("//server/share/x"));
    assert!(!absolute("\\\\server"));
    assert!(absolute("\\\\.\\COM1"));
    assert!(absolute("\\\\?\\pictures"));
    assert!(!absolute("a\\b"));
}

#[test]
fn a_plain_name_ends_the_path_that_it_makes() {
    assert_eq!(paths::join(false, "a", "name"), "a/name");
    assert_eq!(paths::join(true, "C:", "name"), "C:name");
    assert_eq!(paths::join(true, "\\\\?\\C:\\a\\.\\b", "name"), "\\\\?\\C:\\a\\.\\b\\name");
}
