use cook::abi::{build_abi_fingerprint, validate_abi_compatibility};
use cook::config::{
    default_build_threads, default_true, AbiProfile, BuildBackend, BuildCompiler, BuildConfig,
    DependencyBuildSystem, DependencyDetail, DependencySource, DependencySpec,
    DependencyVisibility, ResolverConfig,
};

#[test]
fn a_plain_path_is_a_private_dependency() {
    let spec = DependencySpec::Path("../lib".to_string());
    let d = spec.descriptor();
    assert!(matches!(&d.source, DependencySource::Path(p) if p == "../lib"));
    assert_eq!(d.visibility, DependencyVisibility::Private);
    assert_eq!(d.build_system, DependencyBuildSystem::Auto);
    assert!(d.export.include_dirs.is_empty());
    assert_eq!(d.abi.compiler, None);
}

#[test]
fn a_path_wins_over_a_repository() {
    let mut detail = DependencyDetail::default();
    detail.path = Some("p".to_string());
    detail.git = Some("https://x/y.git".to_string());
    detail.public = true;
    detail.build_system = Some(DependencyBuildSystem::Make);
    let d = DependencySpec::Detailed(Box::new(detail)).descriptor();
    assert!(matches!(&d.source, DependencySource::Path(p) if p == "p"));
    assert_eq!(d.visibility, DependencyVisibility::Public);
    assert_eq!(d.build_system, DependencyBuildSystem::Make);
}

#[test]
fn a_repository_keeps_revision_branch_and_tag() {
    let mut detail = DependencyDetail::default();
    detail.git = Some("u".to_string());
    detail.rev = Some("r".to_string());
    detail.branch = Some("b".to_string());
    detail.tag = Some("t".to_string());
    let d = DependencySpec::Detailed(Box::new(detail)).descriptor();
    match d.source {
        DependencySource::Git { url, rev, branch, tag } => {
            assert_eq!(url, "u");
            assert_eq!(rev, Some("r".to_string()));
            assert_eq!(branch, Some("b".to_string()));
            assert_eq!(tag, Some("t".to_string()));
        }
        other => panic!("unexpected {other:?}"),
    }
}

#[test]
fn a_dependency_without_source_is_an_empty_repository() {
    let d = DependencySpec::Detailed(Box::new(DependencyDetail::default())).descriptor();
    assert!(matches!(&d.source, DependencySource::Git { url, rev: None, .. } if url.is_empty()));
}

#[test]
fn build_settings_have_defaults() {
    let b = BuildConfig::defaults(Some(6));
    assert_eq!(b.backend, BuildBackend::Cmake);
    assert_eq!(b.compiler, BuildCompiler::Gcc);
    assert!(b.strict_lock_in_ci);
    assert!(!b.offline);
    assert_eq!(b.threads, 6);
    assert_eq!(default_build_threads(None), 1);
    assert!(default_true());
    assert!(ResolverConfig::default().write_lockfile);
}

fn abi(compiler: Option<&str>, rtti: Option<bool>, arch: Option<&str>) -> AbiProfile {
    let mut abi = AbiProfile::default();
    abi.compiler = compiler.map(|s| s.to_string());
    abi.rtti = rtti;
    abi.arch = arch.map(|s| s.to_string());
    abi
}

#[test]
fn profiles_that_fix_nothing_fit() {
    let open = AbiProfile::default();
    let strict = abi(Some("gcc"), Some(true), Some("x86_64"));
    assert!(validate_abi_compatibility("a", &open, "b", &strict, "c").is_ok());
    assert!(validate_abi_compatibility("a", &strict, "b", &open, "c").is_ok());
    assert!(validate_abi_compatibility("a", &strict, "b", &strict, "c").is_ok());
}

#[test]
fn the_first_difference_is_told() {
    let a = abi(Some("gcc"), Some(true), Some("x86_64"));
    let b = abi(Some("clang"), Some(false), Some("arm"));
    let e = validate_abi_compatibility("app", &a, "lib", &b, "parent-child").unwrap_err();
    assert_eq!(
        e.message,
        "ABI incompatibility (parent-child) between 'app' and 'lib': field 'compiler' differs (\"gcc\" != \"clang\")"
    );
}

#[test]
fn flags_are_told_as_truth_values() {
    let a = abi(None, Some(true), None);
    let b = abi(None, Some(false), None);
    let e = validate_abi_compatibility("app", &a, "lib", &b, "dependency-constraint").unwrap_err();
    assert_eq!(
        e.message,
        "ABI incompatibility (dependency-constraint) between 'app' and 'lib': field 'rtti' differs (true != false)"
    );
}

#[test]
fn fitting_does_not_depend_on_the_side() {
    let a = abi(Some("gcc"), None, Some("x86_64"));
    let b = abi(None, Some(false), Some("arm"));
    assert!(validate_abi_compatibility("a", &a, "b", &b, "c").is_err());
    assert!(validate_abi_compatibility("b", &b, "a", &a, "c").is_err());
}

#[test]
fn fingerprint_is_the_digest_of_all_fields() {
    let a = abi(Some("gcc"), Some(true), None);
    let text = "cpp_standard=17\ncompiler=Some(\"gcc\")\ncompiler_version=None\nc_runtime=None\ncxx_runtime=None\nexceptions=None\nrtti=Some(true)\npic=None\nvisibility=None\narch=None\n";
    assert_eq!(
        build_abi_fingerprint("17", &a),
        format!("{:x}", <sha2::Sha256 as sha2::Digest>::digest(text.as_bytes()))
    );
}
