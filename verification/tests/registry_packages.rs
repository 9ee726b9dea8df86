use cook::config::{DependencyBuildSystem, DependencyCmakeBuildControls, DependencyExportConfig};
use cook::failure::Failure;
use cook::registry::{
    check_cookbook_reply, cookbook_manifest_url, normalize_package_name,
    resolve_package_from_cookbook, resolve_source_section, select_manifest_version,
    CookbookBuildSection, CookbookDefaultsSection, CookbookLegacySourceSection,
    CookbookPackageManifest, CookbookPackageSection, CookbookSourceKind, CookbookSourceSection,
    CookbookTypedSourceSection, CookbookVersionSection, CookbookVersionStability, RegistryStep,
};
use cook::versions::{parse_semver_loose, parse_version_matcher, SemVersion};

fn typed(url: &str) -> CookbookTypedSourceSection {
    CookbookTypedSourceSection {
        kind: CookbookSourceKind::Git,
        url: url.to_string(),
        rev: Some("r".to_string()),
        sha256: None,
        strip_prefix: None,
    }
}

fn version(v: &str, stability: Option<CookbookVersionStability>) -> CookbookVersionSection {
    CookbookVersionSection {
        version: v.to_string(),
        stability,
        source: typed(&format!("https://x/{v}.git")),
        defaults: None,
        build: None,
    }
}

fn recipe(versions: Vec<CookbookVersionSection>) -> CookbookPackageManifest {
    CookbookPackageManifest {
        schema_version: Some(1),
        package: CookbookPackageSection {
            name: "raylib".to_string(),
            version: Some("5.0".to_string()),
        },
        source: None,
        versions,
        defaults: Some(CookbookDefaultsSection {
            build_system: Some(DependencyBuildSystem::Cmake),
            export: DependencyExportConfig {
                include_dirs: vec!["include".to_string()],
                lib_dirs: Vec::new(),
                libs: Vec::new(),
            },
        }),
        build: None,
    }
}

#[test]
fn versions_may_leave_out_numbers() {
    assert_eq!(parse_semver_loose(" 5 ").unwrap().numbers(), (5, 0, 0));
    assert_eq!(parse_semver_loose("5.1").unwrap().numbers(), (5, 1, 0));
    assert_eq!(parse_semver_loose("5.1.2").unwrap().numbers(), (5, 1, 2));
    let v = parse_semver_loose("2-rc.1").unwrap();
    assert_eq!(v.numbers(), (2, 0, 0));
    assert!(!v.is_release());
    assert!(parse_semver_loose("1.2+b").unwrap().is_release());
}

#[test]
fn texts_that_are_no_versions_are_rejected() {
    assert_eq!(parse_semver_loose("  ").unwrap_err().message, "version cannot be empty");
    assert_eq!(
        parse_semver_loose(" 1.2.3.4 ").unwrap_err().message,
        "version ' 1.2.3.4 ' is not valid semver"
    );
    assert_eq!(parse_semver_loose("x").unwrap_err().message, "version 'x' is not valid semver");
    assert!(SemVersion::parse("1.0").is_none());
}

#[test]
fn versions_are_ordered_as_semver_does() {
    let order = ["1.0.0-alpha", "1.0.0-alpha.2", "1.0.0-alpha.11", "1.0.0", "1.0.1", "1.10.0", "2.0.0"];
    for (i, a) in order.iter().enumerate() {
        for (j, b) in order.iter().enumerate() {
            let x = SemVersion::parse(a).unwrap();
            let y = SemVersion::parse(b).unwrap();
            assert_eq!(x.before(&y), i < j, "{a} before {b}");
            assert_eq!(x.same(&y), i == j);
        }
    }
    let plain = SemVersion::parse("1.0.0").unwrap();
    let built = SemVersion::parse("1.0.0+1").unwrap();
    assert!(plain.before(&built));
    assert!(!plain.same(&built));
}

#[test]
fn requirements_choose_versions() {
    let v = SemVersion::parse("1.4.0").unwrap();
    assert!(parse_version_matcher("^1.2").unwrap().matches(&v));
    assert!(!parse_version_matcher("~1.2").unwrap().matches(&v));
    assert!(parse_version_matcher("1.4").unwrap().matches(&v));
    assert!(!parse_version_matcher("1.4.1").unwrap().matches(&v));
    assert!(parse_version_matcher(">=1, <2").unwrap().matches(&v));
    assert_eq!(
        parse_version_matcher(" ").unwrap_err().message,
        "version requirement cannot be empty"
    );
    assert_eq!(
        parse_version_matcher("^x").unwrap_err().message,
        "'^x' is not a valid semver requirement"
    );
    assert_eq!(
        parse_version_matcher("abc").unwrap_err().message,
        "version 'abc' is not valid semver"
    );
}

#[test]
fn package_names_are_normalized() {
    assert_eq!(normalize_package_name("  RayLib ").unwrap(), "raylib");
    assert_eq!(normalize_package_name("a-b_c.1").unwrap(), "a-b_c.1");
    assert_eq!(normalize_package_name(" ").unwrap_err().message, "package name cannot be empty");
    assert_eq!(
        normalize_package_name("a/b").unwrap_err().message,
        "package name 'a/b' contains unsupported characters (allowed: a-z, 0-9, '-', '_' and '.')"
    );
    let once = normalize_package_name("SDL2").unwrap();
    assert_eq!(normalize_package_name(&once).unwrap(), once);
}

#[test]
fn recipes_have_urls() {
    assert_eq!(
        cookbook_manifest_url(None, "raylib"),
        "https://raw.githubusercontent.com/Helix128/cookbook/refs/heads/main/packages/raylib.toml?raw=true"
    );
    assert_eq!(cookbook_manifest_url(Some("http://h//"), "x"), "http://h/x.toml?raw=true");
}

#[test]
fn replies_are_judged_by_their_status() {
    assert!(check_cookbook_reply("u", "p", 200, "200 OK").is_ok());
    assert!(check_cookbook_reply("u", "p", 299, "299").is_ok());
    assert_eq!(
        check_cookbook_reply("u", "p", 404, "404 Not Found").unwrap_err().message,
        "package 'p' was not found in cookbook at u"
    );
    assert_eq!(
        check_cookbook_reply("u", "p", 500, "500 Internal Server Error").unwrap_err().message,
        "failed to fetch cookbook manifest u: HTTP 500 Internal Server Error"
    );
    assert!(check_cookbook_reply("u", "p", 300, "300").is_err());
    assert!(check_cookbook_reply("u", "p", 199, "199").is_err());
}

#[test]
fn the_greatest_stable_version_is_taken() {
    let list = vec![
        version("1.9", None),
        version("1.10", None),
        version("2.0.0-rc.1", None),
        version("3.0", Some(CookbookVersionStability::Prerelease)),
    ];
    assert_eq!(select_manifest_version("p", &list, None).unwrap().index, 1);
}

#[test]
fn a_prerelease_can_be_declared_stable() {
    let list = vec![
        version("1.0.0", None),
        version("2.0.0-rc.1", Some(CookbookVersionStability::Stable)),
    ];
    assert_eq!(select_manifest_version("p", &list, None).unwrap().index, 1);
}

#[test]
fn without_stable_versions_the_greatest_is_taken() {
    let list = vec![version("2.0.0-b", None), version("2.0.0-a", None)];
    assert_eq!(select_manifest_version("p", &list, None).unwrap().index, 0);
}

#[test]
fn of_equal_versions_the_last_is_taken() {
    let list = vec![version("1.0", None), version("1", None), version("0.9", None)];
    let selected = select_manifest_version("p", &list, None).unwrap();
    assert_eq!(selected.index, 1);
    assert_eq!(selected.source.url, "https://x/1.git");
}

#[test]
fn a_requested_version_is_honoured() {
    let list = vec![version("1.2", None), version("1.4", None), version("2.0", None)];
    assert_eq!(select_manifest_version("p", &list, Some("^1")).unwrap().index, 1);
    assert_eq!(select_manifest_version("p", &list, Some("1.2.0")).unwrap().index, 0);
    assert_eq!(
        select_manifest_version("p", &list, Some("3")).unwrap_err().message,
        "package 'p' has no version that satisfies '3'"
    );
    assert_eq!(
        select_manifest_version("p", &list, Some("^")).unwrap_err().message,
        "failed to parse requested version '^' for package 'p'"
    );
}

#[test]
fn bad_version_lists_are_told() {
    assert_eq!(
        select_manifest_version("p", &Vec::new(), None).unwrap_err().message,
        "package 'p' has no versions in cookbook recipe"
    );
    assert_eq!(
        select_manifest_version("p", &vec![version("1", None), version("bad", None)], None)
            .unwrap_err()
            .message,
        "package 'p' contains invalid version 'bad' in cookbook"
    );
    let mut list = vec![version("1", None)];
    list[0].source.url = " ".to_string();
    assert_eq!(
        select_manifest_version("p", &list, None).unwrap_err().message,
        "source URL cannot be empty"
    );
}

fn legacy(git: Option<&str>, url: Option<&str>, archive: Option<&str>) -> CookbookSourceSection {
    CookbookSourceSection::Legacy(CookbookLegacySourceSection {
        git: git.map(|s| s.to_string()),
        url: url.map(|s| s.to_string()),
        rev: None,
        archive: archive.map(|s| s.to_string()),
        sha256: Some("s".to_string()),
        strip_prefix: Some("p".to_string()),
    })
}

#[test]
fn legacy_sources_prefer_git_then_url_then_archive() {
    let url = |s: &CookbookSourceSection| resolve_source_section(s).unwrap().url;
    assert_eq!(url(&legacy(Some("g"), Some("u"), Some("a"))), "g");
    assert_eq!(url(&legacy(None, Some("u"), Some("a"))), "u");
    assert_eq!(url(&legacy(None, None, Some("a"))), "a");
    assert_eq!(
        resolve_source_section(&legacy(None, None, None)).unwrap_err().message,
        "source requires either git, url, or archive"
    );
}

fn found(step: RegistryStep) -> cook::registry::RegistryResolution {
    match step {
        RegistryStep::Finished(Ok(found)) => found,
        other => panic!("unexpected {other:?}"),
    }
}

fn refused(step: RegistryStep) -> String {
    match step {
        RegistryStep::Finished(Err(f)) => f.message,
        other => panic!("unexpected {other:?}"),
    }
}

#[test]
fn a_package_is_looked_up_in_two_steps() {
    assert!(matches!(resolve_package_from_cookbook("RayLib", None, Some("b"), None),
        RegistryStep::Fetch(u) if u == "b/raylib.toml?raw=true"));
    let mut m = recipe(vec![version("5.0", None), version("5.5", None)]);
    m.versions[1].build = Some(CookbookBuildSection {
        system: Some(DependencyBuildSystem::Make),
        exclude: vec!["examples".to_string()],
        configure_args: Vec::new(),
        build_args: Vec::new(),
        install_args: vec!["-i".to_string()],
        cmake: DependencyCmakeBuildControls::default(),
    });
    let fetched = Ok(m);
    let r = found(resolve_package_from_cookbook("RayLib", None, None, Some(&fetched)));
    assert_eq!(r.dependency_name, "raylib");
    assert_eq!(r.detail.git, Some("https://x/5.5.git".to_string()));
    assert_eq!(r.detail.rev, Some("r".to_string()));
    assert_eq!(r.detail.registry_name, Some("raylib".to_string()));
    assert_eq!(r.detail.registry_version, Some("5.5".to_string()));
    assert_eq!(r.detail.build_system, Some(DependencyBuildSystem::Make));
    assert_eq!(r.detail.export.include_dirs, vec!["include".to_string()]);
    assert_eq!(r.detail.build.install_args, vec!["-i".to_string()]);
    assert_eq!(r.detail.path, None);
    let older = found(resolve_package_from_cookbook("raylib", Some("5.0"), None, Some(&fetched)));
    assert_eq!(older.detail.registry_version, Some("5.0".to_string()));
    assert_eq!(older.detail.build_system, Some(DependencyBuildSystem::Cmake));
}

#[test]
fn a_recipe_without_versions_uses_its_source() {
    let mut m = recipe(Vec::new());
    m.source = Some(legacy(Some("g"), None, None));
    let fetched = Ok(m);
    let r = found(resolve_package_from_cookbook("raylib", None, None, Some(&fetched)));
    assert_eq!(r.detail.git, Some("g".to_string()));
    assert_eq!(r.detail.registry_version, Some("5.0".to_string()));
    assert_eq!(r.detail.source_sha256, Some("s".to_string()));
    assert_eq!(r.detail.strip_prefix, Some("p".to_string()));
}

#[test]
fn recipes_without_a_usable_source_are_told() {
    let fetched = Ok(recipe(Vec::new()));
    assert_eq!(
        refused(resolve_package_from_cookbook("p", None, Some("b"), Some(&fetched))),
        "package 'p' has no source definition in cookbook manifest b/p.toml?raw=true"
    );
    let mut m = recipe(Vec::new());
    m.source = Some(legacy(None, None, None));
    let fetched = Ok(m);
    assert_eq!(
        refused(resolve_package_from_cookbook("p", None, Some("b"), Some(&fetched))),
        "package 'p' has invalid source definition in cookbook manifest b/p.toml?raw=true"
    );
    let failed = Err(Failure::new("gone".to_string()));
    assert_eq!(refused(resolve_package_from_cookbook("p", None, None, Some(&failed))), "gone");
    assert_eq!(
        refused(resolve_package_from_cookbook(" ", None, None, None)),
        "package name cannot be empty"
    );
}
