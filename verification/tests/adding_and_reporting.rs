use cook::additions::{
    add_dependency, check_archive_reply, is_direct_git_repo_url, looks_like_archive_url,
    resolve_remote_head_rev, AddReplies, AddStep,
};
use cook::archive::{
    detect_common_top_level_component, extract_zip_archive, is_enclosed, plan_extraction,
    ArchiveEntry, ExtractStep, PlannedStep,
};
use cook::config::{
    AbiProfile, BuildConfig, CookConfig, DependencySource, DependencySpec, Project, ResolverConfig,
};
use cook::failure::Failure;
use cook::ordered_map::OrderedMap;
use cook::programs::ProgramOutcome;
use cook::registry::{
    CookbookLegacySourceSection, CookbookPackageManifest, CookbookPackageSection,
    CookbookSourceSection,
};
use cook::reporter::{Progress, Reporter};

fn words(items: &[&str]) -> Vec<String> {
    items.iter().map(|s| s.to_string()).collect()
}

fn fail(message: &str) -> Failure {
    Failure::new(message.to_string())
}

fn config() -> CookConfig {
    let mut dependencies = OrderedMap::new();
    dependencies.insert("old".to_string(), DependencySpec::Path("../old".to_string()));
    CookConfig {
        project: Project {
            name: "app".to_string(),
            cpp_standard: "17".to_string(),
            abi: AbiProfile::default(),
        },
        build: BuildConfig::defaults(None),
        resolver: ResolverConfig::default(),
        dependencies,
    }
}

fn project() -> Option<Result<CookConfig, Failure>> {
    Some(Ok(config()))
}

fn output(text: &str) -> ProgramOutcome {
    ProgramOutcome::Ended {
        success: true,
        status: "exit status: 0".to_string(),
        output: text.to_string(),
    }
}

fn refused(step: AddStep) -> String {
    match step {
        AddStep::Finished(Err(f)) => f.message,
        other => panic!("unexpected {other:?}"),
    }
}

fn dependency(read: &Option<Result<CookConfig, Failure>>, name: &str) -> DependencySource {
    match read {
        Some(Ok(cfg)) => cfg.dependencies.get(name).unwrap().descriptor().source,
        _ => panic!("no project"),
    }
}

#[test]
fn urls_tell_repositories_from_archives() {
    assert!(is_direct_git_repo_url(" https://h/x.GIT \n"));
    assert!(!is_direct_git_repo_url("https://h/x.git/"));
    assert!(looks_like_archive_url("https://h/x.zip"));
    assert!(looks_like_archive_url(" https://h/X.ZIP?token=1"));
    assert!(!looks_like_archive_url("https://h/x.zip/y"));
}

#[test]
fn a_repository_is_pinned_to_its_head() {
    let url = "https://h/x.git";
    let mut read = None;
    let mut seen = AddReplies::new(false);
    assert!(matches!(add_dependency("x", Some(url), &mut read, None, &seen),
        AddStep::LoadConfig(p) if p == "cook.toml"));
    read = project();
    assert!(matches!(add_dependency("x", Some(url), &mut read, None, &seen),
        AddStep::ReadHead(args) if args == words(&["ls-remote", url, "HEAD"])));
    seen.head = Some(output("\n0123456789abcdef\tHEAD\n"));
    assert!(matches!(add_dependency("x", Some(url), &mut read, None, &seen),
        AddStep::Finished(Ok(m)) if m == "dependency 'x' added at rev 0123456789abcdef"));
    assert!(matches!(dependency(&read, "x"), DependencySource::Git { url: u, rev: Some(r), .. }
        if u == url && r == "0123456789abcdef"));
    assert!(matches!(dependency(&read, "old"), DependencySource::Path(p) if p == "../old"));
    assert_eq!(
        refused(add_dependency("x", Some(url), &mut read, None, &seen)),
        "dependency 'x' already exists in cook.toml"
    );
}

#[test]
fn heads_have_to_be_told_by_git() {
    let rev = |o: ProgramOutcome| resolve_remote_head_rev("u", &o).unwrap_err().message;
    assert_eq!(
        rev(ProgramOutcome::NotStarted("x".to_string())),
        "failed to run git ls-remote for 'u'"
    );
    assert_eq!(
        rev(ProgramOutcome::Ended {
            success: false,
            status: "exit status: 128".to_string(),
            output: String::new()
        }),
        "git ls-remote failed for 'u': status exit status: 128"
    );
    assert_eq!(rev(output(" \n\t\n")), "git ls-remote returned empty output");
    assert_eq!(rev(output("abc HEAD")), "resolved revision is invalid: abc");
    assert_eq!(resolve_remote_head_rev("u", &output("12345678")).unwrap(), "12345678");
}

#[test]
fn bad_requests_to_add_are_refused() {
    let seen = AddReplies::new(false);
    assert_eq!(
        refused(add_dependency(" ", None, &mut None, None, &seen)),
        "dependency name cannot be empty"
    );
    assert_eq!(
        refused(add_dependency("old", None, &mut project(), None, &seen)),
        "dependency 'old' already exists in cook.toml"
    );
    assert_eq!(
        refused(add_dependency("x", Some(" "), &mut project(), None, &seen)),
        "dependency source URL cannot be empty"
    );
    assert_eq!(
        refused(add_dependency("x", None, &mut Some(Err(fail("broken"))), None, &seen)),
        "broken"
    );
    assert_eq!(
        refused(add_dependency("x", Some("https://h/x.tar"), &mut project(), None, &seen)),
        "dependency source 'https://h/x.tar' is not a direct '.git' URL and does not look like a downloadable '.zip' URL"
    );
}

fn recipe(url: &str, rev: Option<&str>) -> CookbookPackageManifest {
    CookbookPackageManifest {
        schema_version: None,
        package: CookbookPackageSection { name: "ray".to_string(), version: None },
        source: Some(CookbookSourceSection::Legacy(CookbookLegacySourceSection {
            git: Some(url.to_string()),
            url: None,
            rev: rev.map(|r| r.to_string()),
            archive: None,
            sha256: None,
            strip_prefix: None,
        })),
        versions: Vec::new(),
        defaults: None,
        build: None,
    }
}

#[test]
fn a_package_comes_from_the_cookbook() {
    let mut read = project();
    let mut seen = AddReplies::new(false);
    assert!(matches!(add_dependency("Ray", None, &mut read, Some("http://b/"), &seen),
        AddStep::FetchRecipe(u) if u == "http://b/ray.toml?raw=true"));
    seen.recipe = Some(Ok(recipe("https://h/r.git", Some("cafe"))));
    assert!(matches!(add_dependency("Ray", None, &mut read, None, &seen),
        AddStep::Tell(m) if m == "package 'Ray' resolved from cookbook as 'ray'"));
    seen.told = true;
    assert!(matches!(add_dependency("Ray", None, &mut read, None, &seen),
        AddStep::Finished(Ok(m)) if m == "dependency 'Ray' added at rev cafe"));
    assert!(matches!(dependency(&read, "Ray"), DependencySource::Git { rev: Some(r), .. }
        if r == "cafe"));
    seen.recipe = Some(Err(fail("gone")));
    assert_eq!(refused(add_dependency("b", None, &mut read, None, &seen)), "gone");
}

fn zip(entries: &[(&str, Option<&[u8]>)]) -> Vec<u8> {
    let mut writer = zip::ZipWriter::new(std::io::Cursor::new(Vec::new()));
    let options = zip::write::SimpleFileOptions::default()
        .compression_method(zip::CompressionMethod::Stored);
    for (name, content) in entries {
        match content {
            Some(bytes) => {
                writer.start_file(*name, options).unwrap();
                std::io::Write::write_all(&mut writer, bytes).unwrap();
            }
            None => writer.add_directory(*name, options).unwrap(),
        }
    }
    writer.finish().unwrap().into_inner()
}

fn writes(step: &ExtractStep, to: &str, what: &[u8]) -> bool {
    matches!(step, ExtractStep::WriteFile { path, content: Some(c), .. } if path == to && c == what)
}

#[test]
fn an_archive_is_downloaded_and_unpacked() {
    let url = "https://h/x.zip";
    let mut read = project();
    let mut seen = AddReplies::new(false);
    assert!(matches!(add_dependency("x", Some(url), &mut read, None, &seen),
        AddStep::Download(u) if u == url));
    seen.archive = Some(Err(fail("offline")));
    assert_eq!(refused(add_dependency("x", Some(url), &mut read, None, &seen)), "offline");
    seen.archive = Some(Ok(zip(&[("top/a.c", Some(b"int a;"))])));
    match add_dependency("x", Some(url), &mut read, None, &seen) {
        AddStep::Unpack { destination, steps } => {
            assert_eq!(destination, ".cook/deps/x");
            assert!(matches!(&steps.unwrap()[0],
                ExtractStep::WriteFile { parent: Some(p), path, content: Some(c) }
                    if p == ".cook/deps/x" && path == ".cook/deps/x/a.c" && c == b"int a;"));
        }
        other => panic!("unexpected {other:?}"),
    }
    seen.unpacked = Some(Err(fail("failed to clean")));
    assert_eq!(refused(add_dependency("x", Some(url), &mut read, None, &seen)), "failed to clean");
    seen.unpacked = Some(Ok(false));
    assert_eq!(
        refused(add_dependency("x", Some(url), &mut read, None, &seen)),
        "failed to extract archive 'https://h/x.zip'"
    );
    seen.unpacked = Some(Ok(true));
    assert!(matches!(add_dependency("x", Some(url), &mut read, None, &seen),
        AddStep::Finished(Ok(m)) if m == "dependency 'x' added from archive source https://h/x.zip"));
    assert!(matches!(dependency(&read, "x"), DependencySource::Path(p) if p == ".cook/deps/x"));
}

#[test]
fn replies_to_downloads_are_judged() {
    assert!(check_archive_reply("u", 200, "200 OK").is_ok());
    assert_eq!(
        check_archive_reply("u", 404, "404 Not Found").unwrap_err().message,
        "dependency archive was not found: u"
    );
    assert_eq!(
        check_archive_reply("u", 503, "503 Service Unavailable").unwrap_err().message,
        "failed to download dependency archive u: HTTP 503 Service Unavailable"
    );
}

#[test]
fn a_single_top_directory_is_dropped() {
    let bytes = zip(&[
        ("top/", None),
        ("top/src/", None),
        ("top/src/a.c", Some(b"a")),
        ("../evil", Some(b"x")),
        ("top/b", Some(b"b")),
    ]);
    let steps = extract_zip_archive(bytes, "d", false).unwrap();
    assert_eq!(steps.len(), 3);
    assert!(matches!(&steps[0], ExtractStep::CreateDirectory(p) if p == "d/src"));
    assert!(writes(&steps[1], "d/src/a.c", b"a"));
    assert!(writes(&steps[2], "d/b", b"b"));
}

#[test]
fn several_top_directories_are_kept() {
    let bytes = zip(&[("a/x", Some(b"a")), ("b/x", Some(b"b"))]);
    let steps = extract_zip_archive(bytes, "d", false).unwrap();
    assert!(writes(&steps[0], "d/a/x", b"a"));
    assert!(writes(&steps[1], "d/b/x", b"b"));
}

#[test]
fn bytes_that_are_no_archive_are_refused() {
    assert_eq!(
        extract_zip_archive(b"hello".to_vec(), "d", false).unwrap_err().message,
        "invalid zip archive format"
    );
}

fn entry(name: Option<&str>, is_dir: bool) -> ArchiveEntry {
    ArchiveEntry { name: name.map(|n| n.to_string()), is_dir }
}

#[test]
fn top_directories_are_counted_by_entries() {
    assert_eq!(detect_common_top_level_component(&Vec::new(), false), 0);
    assert_eq!(detect_common_top_level_component(&vec![entry(Some("a"), false)], false), 0);
    assert_eq!(
        detect_common_top_level_component(
            &vec![entry(Some("a"), true), entry(Some("a/b"), false)],
            false
        ),
        1
    );
    assert_eq!(
        detect_common_top_level_component(
            &vec![entry(None, false), entry(Some("a/b"), false)],
            false
        ),
        1
    );
    let steps = plan_extraction(&vec![entry(Some("a/b"), true), entry(None, false)], "d", false);
    assert_eq!(steps.len(), 1);
    assert!(matches!(&steps[0], PlannedStep::CreateDirectory(p) if p == "d/b"));
    let list = vec![entry(None, false), entry(Some("a/b"), false), entry(Some("a/c"), false)];
    let steps = plan_extraction(&list, "d", false);
    assert_eq!(steps.len(), 2);
    assert!(matches!(&steps[0], PlannedStep::WriteFile { index: 1, path, .. } if path == "d/b"));
    assert!(matches!(&steps[1], PlannedStep::WriteFile { index: 2, parent: Some(p), path }
        if p == "d" && path == "d/c"));
}

#[test]
fn a_quiet_reporter_tells_only_of_trouble() {
    let quiet = Reporter::new(2, true, None, false);
    assert_eq!(quiet.info("m"), None);
    assert_eq!(quiet.success("m"), None);
    assert_eq!(quiet.debug("m"), None);
    assert_eq!(quiet.warn("m"), "cook: m");
    assert_eq!(quiet.error("m"), "cook: m");
    assert!(matches!(quiet.spinner("m"), Progress::Hidden));
    assert!(matches!(quiet.progress_items(3, "m"), Progress::Hidden));
    assert!(matches!(quiet.progress_bytes(Some(3), "m"), Progress::Hidden));
}

#[test]
fn debug_messages_are_for_the_verbose() {
    assert_eq!(Reporter::new(0, false, None, false).debug("m"), None);
    assert_eq!(Reporter::new(1, false, None, false).debug("m"), Some("cook: m".to_string()));
    assert_eq!(Reporter::new(0, false, None, false).info("m"), Some("cook: m".to_string()));
}

#[test]
fn progress_is_drawn_on_terminals() {
    let plain = Reporter::new(0, false, None, false);
    assert!(matches!(plain.spinner("m"), Progress::Line(l) if l == "cook: m"));
    assert!(matches!(plain.progress_items(1, "m"), Progress::Line(_)));
    let drawn = Reporter::new(0, false, Some("1"), true);
    assert!(matches!(drawn.spinner("m"), Progress::Spinner(m) if m == "m"));
    assert!(matches!(drawn.progress_items(0, "m"), Progress::Spinner(_)));
    assert!(matches!(drawn.progress_items(7, "m"), Progress::Bar { total: 7, message } if message == "m"));
    assert!(matches!(drawn.progress_bytes(Some(9), "m"), Progress::Bar { total: 9, .. }));
    assert!(matches!(drawn.progress_bytes(Some(0), "m"), Progress::Counter(_)));
    assert!(matches!(drawn.progress_bytes(None, "m"), Progress::Counter(m) if m == "m"));
}

#[test]
fn tags_are_colored_on_terminals() {
    colored::control::set_override(true);
    let bright = Reporter::new(1, false, Some("  "), true);
    assert_eq!(bright.info("m").unwrap(), "\u{1b}[1;36mcook\u{1b}[0m m");
    assert_eq!(bright.success("m").unwrap(), "\u{1b}[1;32mcook\u{1b}[0m m");
    assert_eq!(bright.warn("m"), "\u{1b}[1;33mcook\u{1b}[0m m");
    assert_eq!(bright.error("m"), "\u{1b}[1;31mcook\u{1b}[0m m");
    assert_eq!(bright.debug("m").unwrap(), "\u{1b}[1;34mcook\u{1b}[0m m");
    let plain = Reporter::new(1, false, Some("1"), true);
    assert_eq!(plain.warn("m"), "cook: m");
}

#[test]
fn names_are_enclosed_as_the_zip_crate_says() {
    let bytes = zip(&[
        ("a", Some(b"1")),
        ("./a/./b", Some(b"2")),
        ("a/../b", Some(b"3")),
        ("a/../../b", Some(b"4")),
        ("..", Some(b"5")),
        ("a//b", Some(b"6")),
        ("/abs", Some(b"7")),
        ("a\\..\\..\\b", Some(b"8")),
        ("C:x", Some(b"9")),
    ]);
    let mut archive = zip::ZipArchive::new(std::io::Cursor::new(bytes)).unwrap();
    for i in 0..archive.len() {
        let entry = archive.by_index(i).unwrap();
        assert_eq!(
            is_enclosed(on_windows(), entry.name()),
            entry.enclosed_name().is_some(),
            "{:?}",
            entry.name()
        );
    }
}

fn on_windows() -> bool {
    std::path::MAIN_SEPARATOR == '\\'
}

#[test]
fn names_are_enclosed_by_the_rules_of_the_system() {
    for name in ["a\\..\\..\\b", "C:x", "\\x", "\\\\server\\share\\x"] {
        assert!(is_enclosed(false, name), "{name}");
        assert!(!is_enclosed(true, name), "{name}");
    }
    assert!(is_enclosed(true, "a\\b/../.."));
    assert!(!is_enclosed(false, "a\\b/../.."));
    assert!(!is_enclosed(false, "a\0"));
    assert!(!is_enclosed(true, "/x"));
    assert!(is_enclosed(true, ""));
}

#[test]
fn an_archive_is_unpacked_by_the_rules_of_windows() {
    let bytes = zip(&[
        ("top/src/a.c", Some(b"a")),
        ("top\\b", Some(b"b")),
        ("..\\evil", Some(b"x")),
        ("top/C:y", Some(b"y")),
    ]);
    let steps = extract_zip_archive(bytes, ".cook\\deps\\x", true).unwrap();
    assert_eq!(steps.len(), 3);
    assert!(matches!(&steps[0], ExtractStep::WriteFile { parent: Some(p), .. }
        if p == ".cook\\deps\\x\\src"));
    assert!(writes(&steps[0], ".cook\\deps\\x\\src\\a.c", b"a"));
    assert!(writes(&steps[1], ".cook\\deps\\x\\b", b"b"));
    assert!(writes(&steps[2], "C:y", b"y"));
}

#[test]
fn every_step_unpacks_one_entry_under_the_destination() {
    let bytes = zip(&[
        ("a/", None),
        ("a/./x", Some(b"x")),
        ("../out", Some(b"o")),
        ("b/../y", Some(b"y")),
    ]);
    let steps = extract_zip_archive(bytes, "d", false).unwrap();
    assert_eq!(steps.len(), 3);
    assert!(matches!(&steps[0], ExtractStep::CreateDirectory(p) if p == "d/a"));
    assert!(writes(&steps[1], "d/a/x", b"x"));
    assert!(writes(&steps[2], "d/b/../y", b"y"));
}

#[test]
fn an_archive_goes_into_a_directory_of_the_system() {
    let url = "https://h/x.zip";
    let mut read = project();
    let mut seen = AddReplies::new(true);
    seen.archive = Some(Ok(zip(&[("top/a.c", Some(b"int a;"))])));
    assert!(matches!(add_dependency("x", Some(url), &mut read, None, &seen),
        AddStep::Unpack { destination, .. } if destination == ".cook\\deps\\x"));
    seen.unpacked = Some(Ok(true));
    assert!(matches!(add_dependency("x", Some(url), &mut read, None, &seen),
        AddStep::Finished(Ok(_))));
    assert!(matches!(dependency(&read, "x"), DependencySource::Path(p) if p == ".cook/deps/x"));
}

#[test]
fn compressed_entries_are_written_as_they_were() {
    let text = "all work and no play ".repeat(500);
    let mut writer = zip::ZipWriter::new(std::io::Cursor::new(Vec::new()));
    let options = zip::write::SimpleFileOptions::default()
        .compression_method(zip::CompressionMethod::Deflated);
    writer.start_file("a", options).unwrap();
    std::io::Write::write_all(&mut writer, text.as_bytes()).unwrap();
    writer.start_file("empty", options).unwrap();
    let bytes = writer.finish().unwrap().into_inner();
    assert!(bytes.len() < text.len());
    let steps = extract_zip_archive(bytes, "d", false).unwrap();
    assert_eq!(steps.len(), 2);
    assert!(writes(&steps[0], "d/a", text.as_bytes()));
    assert!(writes(&steps[1], "d/empty", b""));
}

#[test]
fn a_damaged_entry_has_no_content() {
    let mut bytes = zip(&[("a", Some(b"first")), ("b", Some(b"second"))]);
    let at = bytes.windows(6).position(|w| w == b"second").unwrap();
    bytes[at] = b'S';
    let steps = extract_zip_archive(bytes, "d", false).unwrap();
    assert_eq!(steps.len(), 2);
    assert!(writes(&steps[0], "d/a", b"first"));
    assert!(matches!(&steps[1], ExtractStep::WriteFile { path, content: None, .. } if path == "d/b"));
}
