//! The cookbook, cook's package registry.
use vstd::prelude::*;
use vstd::string::*;

use crate::config;
use crate::config::{
    DependencyBuildControls, DependencyBuildSystem, DependencyCmakeBuildControls, DependencyDetail,
    DependencyExportConfig,
};
use crate::failure::Failure;
use crate::text;
use crate::versions;
use crate::versions::SemVersion;

verus! {

broadcast use vstd::string::group_string_axioms;

/// A recipe of the cookbook.
#[derive(Debug)]
pub struct CookbookPackageManifest {
    pub schema_version: Option<u32>,
    pub package: CookbookPackageSection,
    pub source: Option<CookbookSourceSection>,
    pub versions: Vec<CookbookVersionSection>,
    pub defaults: Option<CookbookDefaultsSection>,
    pub build: Option<CookbookBuildSection>,
}

#[derive(Debug)]
pub struct CookbookPackageSection {
    pub name: String,
    pub version: Option<String>,
}

#[derive(Debug)]
pub enum CookbookSourceSection {
    Legacy(CookbookLegacySourceSection),
    Typed(CookbookTypedSourceSection),
}

#[derive(Debug)]
pub struct CookbookLegacySourceSection {
    pub git: Option<String>,
    pub url: Option<String>,
    pub rev: Option<String>,
    pub archive: Option<String>,
    pub sha256: Option<String>,
    pub strip_prefix: Option<String>,
}

#[derive(Debug)]
pub struct CookbookTypedSourceSection {
    pub kind: CookbookSourceKind,
    pub url: String,
    pub rev: Option<String>,
    pub sha256: Option<String>,
    pub strip_prefix: Option<String>,
}

#[derive(Debug, Clone, Copy, PartialEq, Eq, Structural)]
pub enum CookbookSourceKind {
    Git,
    Archive,
    Url,
}

#[derive(Debug)]
pub struct CookbookVersionSection {
    pub version: String,
    pub stability: Option<CookbookVersionStability>,
    pub source: CookbookTypedSourceSection,
    pub defaults: Option<CookbookDefaultsSection>,
    pub build: Option<CookbookBuildSection>,
}

#[derive(Debug, Clone, Copy, PartialEq, Eq, Structural)]
pub enum CookbookVersionStability {
    Stable,
    Prerelease,
}

#[derive(Debug)]
pub struct CookbookDefaultsSection {
    pub build_system: Option<DependencyBuildSystem>,
    pub export: DependencyExportConfig,
}

#[derive(Debug)]
pub struct CookbookBuildSection {
    pub system: Option<DependencyBuildSystem>,
    pub exclude: Vec<String>,
    pub configure_args: Vec<String>,
    pub build_args: Vec<String>,
    pub install_args: Vec<String>,
    pub cmake: DependencyCmakeBuildControls,
}

/// Where the sources of a package are.
#[derive(Debug)]
pub struct ResolvedCookbookSource {
    pub url: String,
    pub rev: Option<String>,
    pub sha256: Option<String>,
    pub strip_prefix: Option<String>,
}

/// The version of a package that is taken.
#[derive(Debug)]
pub struct SelectedCookbookVersion {
    /// The number of the version in the recipe.
    pub index: usize,
    pub source: ResolvedCookbookSource,
}

/// A package of the cookbook, ready to become a dependency.
#[derive(Debug)]
pub struct RegistryResolution {
    pub dependency_name: String,
    pub detail: DependencyDetail,
}

/// What to do next to look up a package.
#[derive(Debug)]
pub enum RegistryStep {
    /// Fetch and read the recipe at this URL.
    Fetch(String),
    /// The package, or why there is none.
    Finished(Result<RegistryResolution, Failure>),
}

// ---------------------------------------------------------------------------
// Model
// ---------------------------------------------------------------------------

/// Where recipes are, unless the user says otherwise.
pub open spec fn default_base() -> Seq<char> {
    "https://raw.githubusercontent.com/Helix128/cookbook/refs/heads/main/packages"@
}

/// A character that may stand in the name of a package.
pub open spec fn is_name_char(c: char) -> bool {
    ('a' <= c && c <= 'z') || ('A' <= c && c <= 'Z') || ('0' <= c && c <= '9') || c == '-' || c
        == '_' || c == '.'
}

/// The name under which the cookbook knows a package.
pub open spec fn package_name(input: Seq<char>) -> Result<Seq<char>, Seq<char>> {
    let name = text::lowered(text::trimmed(input));
    if name.len() == 0 {
        Err("package name cannot be empty"@)
    } else if exists|i: int| 0 <= i < name.len() && !is_name_char(#[trigger] name[i]) {
        Err(
            "package name '"@ + input
                + "' contains unsupported characters (allowed: a-z, 0-9, '-', '_' and '.')"@,
        )
    } else {
        Ok(name)
    }
}

/// Where the recipe of a package is.
pub open spec fn recipe_url(base: Option<Seq<char>>, name: Seq<char>) -> Seq<char> {
    text::stripped_end(
        match base {
            Some(b) => b,
            None => default_base(),
        },
        '/',
    ) + "/"@ + name + ".toml?raw=true"@
}

/// The complaint about the reply to a request for a recipe, if it is none.
pub open spec fn recipe_reply(
    url: Seq<char>,
    name: Seq<char>,
    code: u16,
    shown: Seq<char>,
) -> Option<Seq<char>> {
    if code == 404 {
        Some("package '"@ + name + "' was not found in cookbook at "@ + url)
    } else if code < 200 || code >= 300 {
        Some("failed to fetch cookbook manifest "@ + url + ": HTTP "@ + shown)
    } else {
        None
    }
}

/// The model of a [`ResolvedCookbookSource`].
#[verifier::ext_equal]
pub struct SourceView {
    pub url: Seq<char>,
    pub rev: Option<Seq<char>>,
    pub sha256: Option<Seq<char>>,
    pub strip_prefix: Option<Seq<char>>,
}

impl View for ResolvedCookbookSource {
    type V = SourceView;

    open spec fn view(&self) -> SourceView {
        SourceView {
            url: self.url@,
            rev: text::opt_text(self.rev),
            sha256: text::opt_text(self.sha256),
            strip_prefix: text::opt_text(self.strip_prefix),
        }
    }
}

/// Where a typed source section points.
pub open spec fn typed_source(source: CookbookTypedSourceSection) -> Result<
    SourceView,
    Seq<char>,
> {
    if text::trimmed(source.url@).len() == 0 {
        Err("source URL cannot be empty"@)
    } else {
        Ok(
            SourceView {
                url: source.url@,
                rev: text::opt_text(source.rev),
                sha256: text::opt_text(source.sha256),
                strip_prefix: text::opt_text(source.strip_prefix),
            },
        )
    }
}

/// Where a source section points.
pub open spec fn any_source(source: CookbookSourceSection) -> Result<SourceView, Seq<char>> {
    match source {
        CookbookSourceSection::Typed(typed) => typed_source(typed),
        CookbookSourceSection::Legacy(legacy) => {
            let url = match (legacy.git, legacy.url, legacy.archive) {
                (Some(git), _, _) => Some(git@),
                (None, Some(url), _) => Some(url@),
                (None, None, archive) => text::opt_text(archive),
            };
            match url {
                None => Err("source requires either git, url, or archive"@),
                Some(url) => Ok(
                    SourceView {
                        url,
                        rev: text::opt_text(legacy.rev),
                        sha256: text::opt_text(legacy.sha256),
                        strip_prefix: text::opt_text(legacy.strip_prefix),
                    },
                ),
            }
        },
    }
}

/// Whether a version counts as stable: as the recipe says, or else by its name.
pub open spec fn is_stable(section: CookbookVersionSection, v: versions::VersionView) -> bool {
    match section.stability {
        Some(CookbookVersionStability::Stable) => true,
        Some(CookbookVersionStability::Prerelease) => false,
        None => v.pre.len() == 0,
    }
}

/// The versions that a recipe lists, if all of them can be read.
pub open spec fn listed(list: Seq<CookbookVersionSection>) -> Seq<versions::VersionView> {
    list.map_values(
        |section: CookbookVersionSection| versions::read_version(section.version@)->Ok_0,
    )
}

/// The first listed version that cannot be read.
pub open spec fn first_unreadable(list: Seq<CookbookVersionSection>) -> int
    decreases list.len(),
{
    if list.len() == 0 || versions::read_version(list[0].version@) is Err {
        0
    } else {
        1 + first_unreadable(list.drop_first())
    }
}

/// The last of the greatest versions among those that `eligible` admits.
pub open spec fn greatest(
    list: Seq<versions::VersionView>,
    eligible: spec_fn(int) -> bool,
) -> Option<int>
    decreases list.len(),
{
    if list.len() == 0 {
        None
    } else {
        let i = list.len() - 1;
        let before = greatest(list.drop_last(), eligible);
        if !eligible(i) {
            before
        } else {
            match before {
                None => Some(i),
                Some(best) => if versions::precedes(list[i], list[best]) {
                    Some(best)
                } else {
                    Some(i)
                },
            }
        }
    }
}

/// The number of the version to take.
pub open spec fn chosen(
    name: Seq<char>,
    list: Seq<CookbookVersionSection>,
    version_req: Option<Seq<char>>,
) -> Result<int, Seq<char>> {
    let all = listed(list);
    let bad = first_unreadable(list);
    if list.len() == 0 {
        Err("package '"@ + name + "' has no versions in cookbook recipe"@)
    } else if bad < list.len() {
        Err(
            "package '"@ + name + "' contains invalid version '"@ + list[bad].version@
                + "' in cookbook"@,
        )
    } else {
        match version_req {
            Some(raw) => match versions::read_matcher(raw) {
                Err(_) => Err(
                    "failed to parse requested version '"@ + raw + "' for package '"@ + name
                        + "'"@,
                ),
                Ok(matcher) => match greatest(all, |i: int| versions::wanted(matcher, all[i])) {
                    Some(i) => Ok(i),
                    None => Err(
                        "package '"@ + name + "' has no version that satisfies '"@ + raw + "'"@,
                    ),
                },
            },
            None => match greatest(all, |i: int| is_stable(list[i], all[i])) {
                Some(i) => Ok(i),
                None => Ok(greatest(all, |i: int| true)->0),
            },
        }
    }
}

/// The exports of a section, or none.
pub open spec fn export_of(defaults: Option<CookbookDefaultsSection>) -> config::ExportView {
    match defaults {
        Some(d) => d.export@,
        None => config::no_exports(),
    }
}

/// The build controls of a section, or none.
pub open spec fn controls_of(build: Option<CookbookBuildSection>) -> config::ControlsView {
    match build {
        Some(b) => config::ControlsView {
            exclude: text::texts(b.exclude@),
            configure_args: text::texts(b.configure_args@),
            build_args: text::texts(b.build_args@),
            install_args: text::texts(b.install_args@),
            defines: crate::ordered_map::text_pairs(b.cmake.defines@),
        },
        None => config::plain_controls(),
    }
}

/// The build system that the sections name, the build section first.
pub open spec fn system_of(
    build: Option<CookbookBuildSection>,
    defaults: Option<CookbookDefaultsSection>,
) -> Option<DependencyBuildSystem> {
    let named = match build {
        Some(b) => b.system,
        None => None,
    };
    match (named, defaults) {
        (Some(system), _) => Some(system),
        (None, Some(d)) => d.build_system,
        (None, None) => None,
    }
}

/// The first of two optional values.
pub open spec fn first_of<T>(a: Option<T>, b: Option<T>) -> Option<T> {
    match a {
        Some(v) => Some(v),
        None => b,
    }
}

/// The dependency that a source and the sections around it make.
pub open spec fn detail_of(
    package: Seq<char>,
    version: Option<Seq<char>>,
    source: SourceView,
    defaults: Option<CookbookDefaultsSection>,
    build: Option<CookbookBuildSection>,
) -> config::DetailView {
    config::DetailView {
        git: Some(source.url),
        rev: source.rev,
        source_sha256: source.sha256,
        strip_prefix: source.strip_prefix,
        registry_name: Some(package),
        registry_version: version,
        build_system: system_of(build, defaults),
        export: export_of(defaults),
        build: controls_of(build),
        ..config::empty_detail()
    }
}

/// The dependency that a recipe makes.
pub open spec fn from_recipe(
    name: Seq<char>,
    recipe: CookbookPackageManifest,
    url: Seq<char>,
    version_req: Option<Seq<char>>,
) -> Result<config::DetailView, Seq<char>> {
    if recipe.versions@.len() > 0 {
        match chosen(name, recipe.versions@, version_req) {
            Err(message) => Err(message),
            Ok(i) => {
                let section = recipe.versions@[i];
                match typed_source(section.source) {
                    Err(message) => Err(message),
                    Ok(source) => Ok(
                        detail_of(
                            recipe.package.name@,
                            Some(section.version@),
                            source,
                            first_of(section.defaults, recipe.defaults),
                            first_of(section.build, recipe.build),
                        ),
                    ),
                }
            },
        }
    } else {
        match recipe.source {
            None => Err(
                "package '"@ + name + "' has no source definition in cookbook manifest "@ + url,
            ),
            Some(section) => match any_source(section) {
                Err(_) => Err(
                    "package '"@ + name
                        + "' has invalid source definition in cookbook manifest "@ + url,
                ),
                Ok(source) => Ok(
                    detail_of(
                        recipe.package.name@,
                        text::opt_text(recipe.package.version),
                        source,
                        recipe.defaults,
                        recipe.build,
                    ),
                ),
            },
        }
    }
}

/// The model of a [`RegistryStep`].
#[verifier::ext_equal]
pub enum StepView {
    Fetch(Seq<char>),
    Found { dependency_name: Seq<char>, detail: config::DetailView },
    Failed(Seq<char>),
}

impl View for RegistryStep {
    type V = StepView;

    open spec fn view(&self) -> StepView {
        match self {
            RegistryStep::Fetch(url) => StepView::Fetch(url@),
            RegistryStep::Finished(Ok(found)) => StepView::Found {
                dependency_name: found.dependency_name@,
                detail: found.detail@,
            },
            RegistryStep::Finished(Err(failure)) => StepView::Failed(failure@),
        }
    }
}

/// What to do next to look up a package.
pub open spec fn lookup_step(
    name: Seq<char>,
    version_req: Option<Seq<char>>,
    base: Option<Seq<char>>,
    fetched: Option<Result<CookbookPackageManifest, Failure>>,
) -> StepView {
    match package_name(name) {
        Err(message) => StepView::Failed(message),
        Ok(normalized) => match fetched {
            None => StepView::Fetch(recipe_url(base, normalized)),
            Some(Err(failure)) => StepView::Failed(failure@),
            Some(Ok(recipe)) => match from_recipe(
                name,
                recipe,
                recipe_url(base, normalized),
                version_req,
            ) {
                Err(message) => StepView::Failed(message),
                Ok(detail) => StepView::Found { dependency_name: normalized, detail },
            },
        },
    }
}

// ---------------------------------------------------------------------------
// Laws
// ---------------------------------------------------------------------------

/// A package name that has been accepted is accepted again, and unchanged.
pub proof fn package_name_is_settled(input: Seq<char>)
    ensures
        package_name(input) matches Ok(name) ==> package_name(name) == Ok::<Seq<char>, Seq<char>>(
            name,
        ),
{
    if let Ok(name) = package_name(input) {
        let front = text::trimmed(input);
        assert forall|i: int| 0 <= i < name.len() implies is_name_char(#[trigger] name[i])
            && text::lower_char(name[i]) == name[i] && !text::is_white(name[i]) by {
            assert(name[i] == text::lower_char(front[i]));
        }
        assert(text::trimmed_start(name) == name);
        assert(text::trimmed(name) == name);
        assert(text::lowered(name) =~= name);
    }
}

/// A package that is found is not without a source URL, where the recipe lists
/// versions or has a typed source.
pub proof fn found_package_has_a_source(
    name: Seq<char>,
    recipe: CookbookPackageManifest,
    url: Seq<char>,
    version_req: Option<Seq<char>>,
)
    requires
        recipe.versions@.len() > 0 || recipe.source matches Some(CookbookSourceSection::Typed(_)),
    ensures
        from_recipe(name, recipe, url, version_req) matches Ok(detail) ==> detail.git is Some
            && text::trimmed(detail.git->0).len() > 0,
{
}

/// The found dependency of a recipe that lists versions is built as the build
/// section of the chosen version says, or where it has none, as that of the recipe
/// says; only where neither is there, nothing is said. The same holds of what it
/// exports. A build system is taken from the build section, or else from the
/// defaults.
pub proof fn sections_of_the_recipe_fill_in(
    name: Seq<char>,
    recipe: CookbookPackageManifest,
    url: Seq<char>,
    version_req: Option<Seq<char>>,
    detail: config::DetailView,
)
    requires
        recipe.versions@.len() > 0,
        from_recipe(name, recipe, url, version_req) == Ok::<config::DetailView, Seq<char>>(detail),
    ensures
        ({
            let i = chosen(name, recipe.versions@, version_req)->Ok_0;
            let section = recipe.versions@[i];
            let build = if section.build is Some {
                section.build
            } else {
                recipe.build
            };
            let defaults = if section.defaults is Some {
                section.defaults
            } else {
                recipe.defaults
            };
            &&& chosen(name, recipe.versions@, version_req) is Ok
            &&& build matches Some(b) ==> {
                &&& detail.build.exclude == text::texts(b.exclude@)
                &&& detail.build.configure_args == text::texts(b.configure_args@)
                &&& detail.build.build_args == text::texts(b.build_args@)
                &&& detail.build.install_args == text::texts(b.install_args@)
                &&& detail.build.defines == crate::ordered_map::text_pairs(b.cmake.defines@)
                &&& b.system is Some ==> detail.build_system == b.system
            }
            &&& build is None ==> {
                &&& detail.build.exclude.len() == 0
                &&& detail.build.configure_args.len() == 0
                &&& detail.build.build_args.len() == 0
                &&& detail.build.install_args.len() == 0
                &&& detail.build.defines.len() == 0
            }
            &&& defaults matches Some(d) ==> {
                &&& detail.export.include_dirs == text::texts(d.export.include_dirs@)
                &&& detail.export.lib_dirs == text::texts(d.export.lib_dirs@)
                &&& detail.export.libs == text::texts(d.export.libs@)
                &&& (build is None || build->0.system is None) ==> detail.build_system
                    == d.build_system
            }
            &&& defaults is None ==> {
                &&& detail.export.include_dirs.len() == 0
                &&& detail.export.lib_dirs.len() == 0
                &&& detail.export.libs.len() == 0
                &&& (build is None || build->0.system is None) ==> detail.build_system is None
            }
        }),
{
}

/// The same of a recipe without versions: its own sections say how it is built and
/// what it exports.
pub proof fn recipe_without_versions_speaks_for_itself(
    name: Seq<char>,
    recipe: CookbookPackageManifest,
    url: Seq<char>,
    version_req: Option<Seq<char>>,
    detail: config::DetailView,
)
    requires
        recipe.versions@.len() == 0,
        from_recipe(name, recipe, url, version_req) == Ok::<config::DetailView, Seq<char>>(detail),
    ensures
        recipe.build matches Some(b) ==> {
            &&& detail.build.exclude == text::texts(b.exclude@)
            &&& detail.build.configure_args == text::texts(b.configure_args@)
            &&& detail.build.build_args == text::texts(b.build_args@)
            &&& detail.build.install_args == text::texts(b.install_args@)
            &&& detail.build.defines == crate::ordered_map::text_pairs(b.cmake.defines@)
            &&& b.system is Some ==> detail.build_system == b.system
        },
        recipe.defaults matches Some(d) ==> {
            &&& detail.export.include_dirs == text::texts(d.export.include_dirs@)
            &&& detail.export.lib_dirs == text::texts(d.export.lib_dirs@)
            &&& detail.export.libs == text::texts(d.export.libs@)
            &&& (recipe.build is None || recipe.build->0.system is None) ==> detail.build_system
                == d.build_system
        },
        detail.registry_name == Some(recipe.package.name@),
        recipe.package.version matches Some(v) ==> detail.registry_version == Some(v@),
        recipe.package.version is None ==> detail.registry_version is None,
        recipe.source matches Some(CookbookSourceSection::Typed(source)) ==> {
            &&& detail.git == Some(source.url@)
            &&& detail.rev == text::opt_text(source.rev)
            &&& detail.source_sha256 == text::opt_text(source.sha256)
            &&& detail.strip_prefix == text::opt_text(source.strip_prefix)
        },
        recipe.source matches Some(CookbookSourceSection::Legacy(source)) ==> {
            &&& source.git matches Some(git) ==> detail.git == Some(git@)
            &&& source.git is None && source.url is Some ==> detail.git == Some(source.url->0@)
            &&& source.git is None && source.url is None ==> source.archive is Some && detail.git
                == Some(source.archive->0@)
            &&& detail.rev == text::opt_text(source.rev)
            &&& detail.source_sha256 == text::opt_text(source.sha256)
            &&& detail.strip_prefix == text::opt_text(source.strip_prefix)
        },
        detail.path is None && detail.branch is None && detail.tag is None && !detail.public,
{
}

/// The found dependency of a recipe that lists versions is fetched from where the
/// chosen version says, and bears the name of the package and that version.
pub proof fn found_package_is_the_chosen_version(
    name: Seq<char>,
    recipe: CookbookPackageManifest,
    url: Seq<char>,
    version_req: Option<Seq<char>>,
    detail: config::DetailView,
)
    requires
        recipe.versions@.len() > 0,
        from_recipe(name, recipe, url, version_req) == Ok::<config::DetailView, Seq<char>>(detail),
    ensures
        ({
            let section = recipe.versions@[chosen(name, recipe.versions@, version_req)->Ok_0];
            &&& detail.git == Some(section.source.url@)
            &&& detail.rev == text::opt_text(section.source.rev)
            &&& detail.source_sha256 == text::opt_text(section.source.sha256)
            &&& detail.strip_prefix == text::opt_text(section.source.strip_prefix)
            &&& detail.registry_name == Some(recipe.package.name@)
            &&& detail.registry_version == Some(section.version@)
            &&& detail.path is None && detail.branch is None && detail.tag is None
                && !detail.public
        }),
{
}

/// The numbers of `a` are at most those of `b`, and where they are the same, `b`
/// is a release or `a` is none.
pub open spec fn ranks_at_most(a: versions::VersionView, b: versions::VersionView) -> bool {
    ||| a.major < b.major
    ||| a.major == b.major && a.minor < b.minor
    ||| a.major == b.major && a.minor == b.minor && a.patch < b.patch
    ||| a.major == b.major && a.minor == b.minor && a.patch == b.patch && (b.pre.len() == 0
        || a.pre.len() > 0)
}

proof fn lemma_greatest_ranks(
    list: Seq<versions::VersionView>,
    eligible: spec_fn(int) -> bool,
)
    ensures
        greatest(list, eligible) matches Some(best) ==> {
            &&& 0 <= best < list.len()
            &&& eligible(best)
            &&& forall|j: int|
                0 <= j < list.len() && #[trigger] eligible(j) ==> ranks_at_most(
                    list[j],
                    list[best],
                )
        },
        greatest(list, eligible) is None ==> forall|j: int|
            0 <= j < list.len() ==> !#[trigger] eligible(j),
    decreases list.len(),
{
    if list.len() > 0 {
        let before = list.drop_last();
        lemma_greatest_ranks(before, eligible);
        assert(forall|j: int| 0 <= j < before.len() ==> before[j] == list[j]);
        if let Some(best) = greatest(list, eligible) {
            assert forall|j: int| 0 <= j < list.len() && #[trigger] eligible(j) implies ranks_at_most(
                list[j],
                list[best],
            ) by {
                if j < before.len() {
                    assert(eligible(j));
                    let earlier = greatest(before, eligible)->0;
                    assert(ranks_at_most(before[j], before[earlier]));
                }
            }
        }
    }
}

/// Without a request a stable version is taken wherever one is listed, and none
/// that is stable, or listed at all where none is stable, has a greater number.
pub proof fn newest_stable_version_is_taken(
    name: Seq<char>,
    list: Seq<CookbookVersionSection>,
    best: int,
)
    requires
        chosen(name, list, None) == Ok::<int, Seq<char>>(best),
    ensures
        0 <= best < list.len(),
        forall|j: int|
            0 <= j < list.len() && (#[trigger] list[j]).stability == Some(
                CookbookVersionStability::Stable,
            ) ==> list[best].stability != Some(CookbookVersionStability::Prerelease),
        forall|j: int|
            0 <= j < list.len() && (#[trigger] list[j]).stability == Some(
                CookbookVersionStability::Stable,
            ) ==> ranks_at_most(
                versions::read_version(list[j].version@)->Ok_0,
                versions::read_version(list[best].version@)->Ok_0,
            ),
        forall|j: int|
            0 <= j < list.len() && (#[trigger] list[j]).stability is None
                && versions::read_version(list[j].version@)->Ok_0.pre.len() == 0 ==> {
                &&& list[best].stability != Some(CookbookVersionStability::Prerelease)
                &&& list[best].stability is None ==> versions::read_version(
                    list[best].version@,
                )->Ok_0.pre.len() == 0
                &&& ranks_at_most(
                    versions::read_version(list[j].version@)->Ok_0,
                    versions::read_version(list[best].version@)->Ok_0,
                )
            },
        list[best].stability == Some(CookbookVersionStability::Prerelease) ==> forall|j: int|
            0 <= j < list.len() ==> ranks_at_most(
                versions::read_version((#[trigger] list[j]).version@)->Ok_0,
                versions::read_version(list[best].version@)->Ok_0,
            ),
{
    let all = listed(list);
    let stable = |i: int| is_stable(list[i], all[i]);
    let any = |i: int| true;
    lemma_greatest_ranks(all, stable);
    lemma_greatest_ranks(all, any);
    assert forall|j: int| 0 <= j < list.len() implies all[j] == versions::read_version(
        (#[trigger] list[j]).version@,
    )->Ok_0 && any(j) && stable(j) == is_stable(list[j], all[j]) by {}
}

/// Without a request some version is taken from every list of versions that can all be
/// read, even where none of them is stable.
pub proof fn some_version_is_always_taken(name: Seq<char>, list: Seq<CookbookVersionSection>)
    requires
        list.len() > 0,
        forall|j: int|
            0 <= j < list.len() ==> versions::read_version((#[trigger] list[j]).version@) is Ok,
    ensures
        chosen(name, list, None) matches Ok(best) && 0 <= best < list.len(),
{
    let all = listed(list);
    let stable = |i: int| is_stable(list[i], all[i]);
    let any = |i: int| true;
    lemma_first_unreadable(list, list.len() as int);
    lemma_greatest_ranks(all, stable);
    lemma_greatest_ranks(all, any);
    assert(any(0));
}

/// With a request, a version that meets it is taken, and none that meets it has a
/// greater number; there is none only if no listed version meets the request.
pub proof fn newest_requested_version_is_taken(
    name: Seq<char>,
    list: Seq<CookbookVersionSection>,
    raw: Seq<char>,
    matcher: versions::MatcherView,
)
    requires
        list.len() > 0,
        forall|j: int|
            0 <= j < list.len() ==> versions::read_version((#[trigger] list[j]).version@) is Ok,
        versions::read_matcher(raw) == Ok::<versions::MatcherView, Seq<char>>(matcher),
    ensures
        chosen(name, list, Some(raw)) matches Ok(best) ==> {
            &&& 0 <= best < list.len()
            &&& matcher matches versions::MatcherView::Exact(v) ==> versions::read_version(
                list[best].version@,
            ) == Ok::<versions::VersionView, Seq<char>>(v)
            &&& matcher matches versions::MatcherView::Requirement(requirement) ==> versions::meets(
                requirement,
                versions::read_version(list[best].version@)->Ok_0,
            )
            &&& forall|j: int|
                0 <= j < list.len() && versions::wanted(
                    matcher,
                    versions::read_version((#[trigger] list[j]).version@)->Ok_0,
                ) ==> ranks_at_most(
                    versions::read_version(list[j].version@)->Ok_0,
                    versions::read_version(list[best].version@)->Ok_0,
                )
        },
        chosen(name, list, Some(raw)) is Err <==> forall|j: int|
            0 <= j < list.len() ==> !versions::wanted(
                matcher,
                versions::read_version((#[trigger] list[j]).version@)->Ok_0,
            ),
{
    let all = listed(list);
    let fits = |i: int| versions::wanted(matcher, all[i]);
    lemma_greatest_ranks(all, fits);
    lemma_first_unreadable(list, list.len() as int);
    assert forall|j: int| 0 <= j < list.len() implies all[j] == versions::read_version(
        (#[trigger] list[j]).version@,
    )->Ok_0 && fits(j) == versions::wanted(matcher, all[j]) by {}
    if let Ok(best) = chosen(name, list, Some(raw)) {
        assert(fits(best));
        assert(list[best].version@ == list[best].version@);
    }
}

/// A recipe in which some version cannot be read offers no version at all.
pub proof fn unreadable_versions_are_refused(
    name: Seq<char>,
    list: Seq<CookbookVersionSection>,
    version_req: Option<Seq<char>>,
    j: int,
)
    requires
        0 <= j < list.len(),
        versions::read_version(list[j].version@) is Err,
    ensures
        chosen(name, list, version_req) is Err,
{
    lemma_unreadable_found(list, j);
}

proof fn lemma_unreadable_found(list: Seq<CookbookVersionSection>, j: int)
    requires
        0 <= j < list.len(),
        versions::read_version(list[j].version@) is Err,
    ensures
        0 <= first_unreadable(list) <= j,
    decreases list.len(),
{
    if versions::read_version(list[0].version@) is Ok {
        assert(list.drop_first()[j - 1] == list[j]);
        lemma_unreadable_found(list.drop_first(), j - 1);
    }
}

/// A package is known by its name in lower case, which holds only letters, digits,
/// `-`, `_` and `.`; its recipe is a file of that name in the usual place, or in the
/// place that the user names, whether that ends in `/` or not.
pub proof fn recipe_is_fetched_by_name(
    name: Seq<char>,
    version_req: Option<Seq<char>>,
    base: Option<Seq<char>>,
)
    ensures
        package_name(name) matches Ok(known) ==> {
            &&& known.len() > 0
            &&& known == text::lowered(text::trimmed(name))
            &&& forall|i: int|
                0 <= i < known.len() ==> ('a' <= #[trigger] known[i] && known[i] <= 'z') || ('0'
                    <= known[i] && known[i] <= '9') || known[i] == '-' || known[i] == '_'
                    || known[i] == '.'
        },
        package_name(name) is Ok && base is None ==> lookup_step(
            name,
            version_req,
            base,
            None,
        ) == StepView::Fetch(
            "https://raw.githubusercontent.com/Helix128/cookbook/refs/heads/main/packages"@ + "/"@
                + package_name(name)->Ok_0 + ".toml?raw=true"@,
        ),
        package_name(name) is Ok && base is Some && base->0.len() > 0 && base->0.last()
            != '/' ==> lookup_step(name, version_req, base, None) == StepView::Fetch(
            base->0 + "/"@ + package_name(name)->Ok_0 + ".toml?raw=true"@,
        ),
        base matches Some(b) ==> lookup_step(name, version_req, Some(b.push('/')), None)
            == lookup_step(name, version_req, Some(b), None),
        package_name(name) is Err ==> (lookup_step(name, version_req, base, None)
            matches StepView::Failed(_)),
{
    reveal_strlit("https://raw.githubusercontent.com/Helix128/cookbook/refs/heads/main/packages");
    let front = text::trimmed(name);
    if let Ok(known) = package_name(name) {
        assert forall|i: int| 0 <= i < known.len() implies ('a' <= #[trigger] known[i] && known[i]
            <= 'z') || ('0' <= known[i] && known[i] <= '9') || known[i] == '-' || known[i] == '_'
            || known[i] == '.' by {
            assert(is_name_char(known[i]));
            assert(known[i] == text::lower_char(front[i]));
        }
    }
    if let Some(b) = base {
        assert(b.push('/').drop_last() =~= b);
    }
}

/// A name is refused only if it is blank or holds some other character.
pub proof fn plain_names_are_accepted(name: Seq<char>)
    requires
        text::trimmed(name).len() > 0,
        forall|i: int|
            0 <= i < text::trimmed(name).len() ==> {
                let c = #[trigger] text::trimmed(name)[i];
                ('a' <= c && c <= 'z') || ('A' <= c && c <= 'Z') || ('0' <= c && c <= '9') || c
                    == '-' || c == '_' || c == '.'
            },
    ensures
        package_name(name) is Ok,
{
    let front = text::trimmed(name);
    let known = text::lowered(front);
    assert forall|i: int| 0 <= i < known.len() implies is_name_char(#[trigger] known[i]) by {
        assert(known[i] == text::lower_char(front[i]));
    }
}

/// A reply is a recipe exactly if its status is a success; a missing recipe is
/// told from other trouble.
pub proof fn only_success_is_a_recipe(
    url: Seq<char>,
    name: Seq<char>,
    code: u16,
    shown: Seq<char>,
)
    ensures
        recipe_reply(url, name, code, shown) is None <==> 200 <= code <= 299,
        code == 404 ==> recipe_reply(url, name, code, shown) == Some(
            "package '"@ + name + "' was not found in cookbook at "@ + url,
        ),
        code >= 300 && code != 404 ==> recipe_reply(url, name, code, shown) == Some(
            "failed to fetch cookbook manifest "@ + url + ": HTTP "@ + shown,
        ),
{
}

/// What is wrong with a recipe or a request is told, with the package and what it was
/// looked up in or asked for.
pub proof fn refusals_name_the_package(
    name: Seq<char>,
    recipe: CookbookPackageManifest,
    url: Seq<char>,
    version_req: Option<Seq<char>>,
)
    ensures
        recipe.versions@.len() == 0 && recipe.source is None ==> from_recipe(
            name,
            recipe,
            url,
            version_req,
        ) == Err::<config::DetailView, Seq<char>>(
            "package '"@ + name + "' has no source definition in cookbook manifest "@ + url,
        ),
        recipe.versions@.len() == 0 && recipe.source is Some && any_source(recipe.source->0) is Err
            ==> from_recipe(name, recipe, url, version_req) == Err::<config::DetailView, Seq<char>>(
            "package '"@ + name + "' has invalid source definition in cookbook manifest "@ + url,
        ),
        recipe.source matches Some(CookbookSourceSection::Legacy(source)) ==> (source.git is None
            && source.url is None && source.archive is None <==> any_source(recipe.source->0)
            is Err),
        recipe.source matches Some(CookbookSourceSection::Typed(source)) ==> (text::trimmed(
            source.url@,
        ).len() == 0 <==> any_source(recipe.source->0) is Err),
        recipe.versions@.len() > 0 ==> (chosen(name, recipe.versions@, version_req) matches Ok(i)
            ==> (text::trimmed(recipe.versions@[i].source.url@).len() == 0 <==> from_recipe(
            name,
            recipe,
            url,
            version_req,
        ) is Err)),
        recipe.versions@.len() > 0 ==> (chosen(name, recipe.versions@, version_req) matches Err(
            message,
        ) ==> from_recipe(name, recipe, url, version_req) == Err::<config::DetailView, Seq<char>>(
            message,
        )),
{
}

// ---------------------------------------------------------------------------
// Functions
// ---------------------------------------------------------------------------

/// The name under which the cookbook knows a package.
pub fn normalize_package_name(input: &str) -> (r: Result<String, Failure>)
    ensures
        match package_name(input@) {
            Ok(name) => r is Ok && r->Ok_0@ == name,
            Err(message) => r is Err && r->Err_0@ == message,
        },
{
    let name = text::to_lower(text::trim(input).as_str());
    if name.as_str().is_empty() {
        return Err(Failure::new("package name cannot be empty".to_owned()));
    }
    let v = text::chars_of(name.as_str());
    let mut i: usize = 0;
    while i < v.len()
        invariant
            i <= v@.len(),
            v@ == name@,
            name@ == text::lowered(text::trimmed(input@)),
            name@.len() > 0,
            forall|j: int| 0 <= j < i ==> is_name_char(#[trigger] v@[j]),
        decreases v.len() - i,
    {
        let c = v[i];
        let fits = ('a' <= c && c <= 'z') || ('A' <= c && c <= 'Z') || ('0' <= c && c <= '9') || c
            == '-' || c == '_' || c == '.';
        if !fits {
            assert(!is_name_char(name@[i as int]));
            let mut message = "package name '".to_owned();
            message.append(input);
            message.append(
                "' contains unsupported characters (allowed: a-z, 0-9, '-', '_' and '.')",
            );
            return Err(Failure::new(message));
        }
        i += 1;
    }
    Ok(name)
}

/// Where the recipe of a package is; `base` is what the user says instead of the
/// usual place.
pub fn cookbook_manifest_url(base: Option<&str>, package_name: &str) -> (r: String)
    ensures
        r@ == recipe_url(
            match base {
                Some(b) => Some(b@),
                None => None,
            },
            package_name@,
        ),
{
    let place = match base {
        Some(b) => b,
        None => "https://raw.githubusercontent.com/Helix128/cookbook/refs/heads/main/packages",
    };
    let mut out = text::strip_char_end(place, '/');
    out.append("/");
    out.append(package_name);
    out.append(".toml?raw=true");
    out
}

/// Whether the reply to a request for a recipe is a recipe; `code` is its status
/// and `shown` the status as text.
pub fn check_cookbook_reply(url: &str, package_name: &str, code: u16, shown: &str) -> (r: Result<
    (),
    Failure,
>)
    ensures
        match recipe_reply(url@, package_name@, code, shown@) {
            None => r is Ok,
            Some(message) => r is Err && r->Err_0@ == message,
        },
{
    if code == 404 {
        let mut message = "package '".to_owned();
        message.append(package_name);
        message.append("' was not found in cookbook at ");
        message.append(url);
        Err(Failure::new(message))
    } else if code < 200 || code >= 300 {
        let mut message = "failed to fetch cookbook manifest ".to_owned();
        message.append(url);
        message.append(": HTTP ");
        message.append(shown);
        Err(Failure::new(message))
    } else {
        Ok(())
    }
}

/// Whether a version counts as stable.
pub fn is_stable_release(candidate: &CookbookVersionSection, version: &SemVersion) -> (r: bool)
    ensures
        r == is_stable(*candidate, version@),
{
    match candidate.stability {
        Some(CookbookVersionStability::Stable) => true,
        Some(CookbookVersionStability::Prerelease) => false,
        None => version.is_release(),
    }
}

/// Where a typed source section points.
pub fn resolve_typed_source(source: &CookbookTypedSourceSection) -> (r: Result<
    ResolvedCookbookSource,
    Failure,
>)
    ensures
        match typed_source(*source) {
            Ok(s) => r is Ok && r->Ok_0@ == s,
            Err(message) => r is Err && r->Err_0@ == message,
        },
{
    if text::blank(source.url.as_str()) {
        return Err(Failure::new("source URL cannot be empty".to_owned()));
    }
    Ok(
        ResolvedCookbookSource {
            url: source.url.clone(),
            rev: text::copied_opt(&source.rev),
            sha256: text::copied_opt(&source.sha256),
            strip_prefix: text::copied_opt(&source.strip_prefix),
        },
    )
}

/// Where a source section points.
pub fn resolve_source_section(source: &CookbookSourceSection) -> (r: Result<
    ResolvedCookbookSource,
    Failure,
>)
    ensures
        match any_source(*source) {
            Ok(s) => r is Ok && r->Ok_0@ == s,
            Err(message) => r is Err && r->Err_0@ == message,
        },
{
    match source {
        CookbookSourceSection::Typed(typed) => resolve_typed_source(typed),
        CookbookSourceSection::Legacy(legacy) => {
            let url = if legacy.git.is_some() {
                text::copied_opt(&legacy.git)
            } else if legacy.url.is_some() {
                text::copied_opt(&legacy.url)
            } else {
                text::copied_opt(&legacy.archive)
            };
            match url {
                None => Err(
                    Failure::new("source requires either git, url, or archive".to_owned()),
                ),
                Some(url) => Ok(
                    ResolvedCookbookSource {
                        url,
                        rev: text::copied_opt(&legacy.rev),
                        sha256: text::copied_opt(&legacy.sha256),
                        strip_prefix: text::copied_opt(&legacy.strip_prefix),
                    },
                ),
            }
        },
    }
}

/// The build controls that a build section asks for.
pub fn cookbook_build_to_controls(build: &CookbookBuildSection) -> (r: DependencyBuildControls)
    ensures
        r@ == controls_of(Some(*build)),
{
    DependencyBuildControls {
        exclude: text::copied_texts(&build.exclude),
        configure_args: text::copied_texts(&build.configure_args),
        build_args: text::copied_texts(&build.build_args),
        install_args: text::copied_texts(&build.install_args),
        cmake: build.cmake.clone(),
    }
}

// ---------------------------------------------------------------------------
// The choice of a version
// ---------------------------------------------------------------------------

spec fn version_views(list: Seq<SemVersion>) -> Seq<versions::VersionView> {
    list.map_values(|v: SemVersion| v@)
}

/// No version among the first `count` that `eligible` admits, other than the one
/// at `best`, comes after the one at `best`.
pub open spec fn none_greater(
    list: Seq<versions::VersionView>,
    eligible: spec_fn(int) -> bool,
    best: int,
    count: int,
) -> bool {
    forall|j: int|
        0 <= j < count && j != best && #[trigger] eligible(j) ==> !versions::precedes(
            list[best],
            list[j],
        )
}

proof fn lemma_greatest_same(
    list: Seq<versions::VersionView>,
    f: spec_fn(int) -> bool,
    g: spec_fn(int) -> bool,
)
    requires
        forall|i: int| 0 <= i < list.len() ==> #[trigger] f(i) == g(i),
    ensures
        greatest(list, f) == greatest(list, g),
    decreases list.len(),
{
    if list.len() > 0 {
        lemma_greatest_same(list.drop_last(), f, g);
    }
}

fn pick_greatest(parsed: &Vec<SemVersion>, admitted: &Vec<bool>) -> (r: Option<usize>)
    requires
        parsed@.len() == admitted@.len(),
        forall|j: int| 0 <= j < parsed@.len() ==> versions::is_version(#[trigger] parsed@[j]@),
    ensures
        (match r {
            Some(i) => Some(i as int),
            None => None,
        }) == greatest(version_views(parsed@), |i: int| admitted@[i]),
        r matches Some(i) ==> i < parsed@.len() && admitted@[i as int] && none_greater(
            version_views(parsed@),
            |j: int| admitted@[j],
            i as int,
            parsed@.len() as int,
        ),
        r matches Some(i) ==> forall|j: int|
            i < j < parsed@.len() && #[trigger] admitted@[j] ==> parsed@[j]@ != parsed@[i as int]@,
        r is None ==> forall|j: int| 0 <= j < admitted@.len() ==> !admitted@[j],
{
    let ghost all = version_views(parsed@);
    let ghost f = |i: int| admitted@[i];
    let mut best: Option<usize> = None;
    let mut i: usize = 0;
    while i < parsed.len()
        invariant
            i <= parsed@.len() == admitted@.len(),
            forall|j: int| 0 <= j < parsed@.len() ==> versions::is_version(#[trigger] parsed@[j]@),
            all == version_views(parsed@),
            f == (|i: int| admitted@[i]),
            (match best {
                Some(b) => Some(b as int),
                None => None,
            }) == greatest(all.take(i as int), f),
            best matches Some(b) ==> b < i && admitted@[b as int] && none_greater(
                all,
                f,
                b as int,
                i as int,
            ),
            best matches Some(b) ==> forall|j: int|
                b < j < i && #[trigger] admitted@[j] ==> all[j] != all[b as int],
            best is None ==> forall|j: int| 0 <= j < i ==> !admitted@[j],
        decreases parsed.len() - i,
    {
        assert(all.take(i + 1).drop_last() == all.take(i as int));
        if admitted[i] {
            match best {
                None => {
                    best = Some(i);
                },
                Some(b) => {
                    if parsed[i].before(&parsed[b]) {
                        assert(!versions::precedes(all[b as int], all[i as int]));
                    } else {
                        proof {
                            assert forall|j: int| 0 <= j < i + 1 && j != i && #[trigger] f(
                                j,
                            ) implies !versions::precedes(all[i as int], all[j]) by {
                                assert(versions::is_version(parsed@[j]@));
                                if j != b {
                                    assert(f(j));
                                }
                            }
                        }
                        best = Some(i);
                    }
                },
            }
        }
        i += 1;
    }
    assert(all.take(all.len() as int) == all);
    best
}

proof fn lemma_read_is_version(input: Seq<char>)
    ensures
        versions::read_version(input) matches Ok(v) ==> versions::is_version(v),
{
}

proof fn lemma_first_unreadable(list: Seq<CookbookVersionSection>, n: int)
    requires
        0 <= n <= list.len(),
        forall|i: int| 0 <= i < n ==> versions::read_version((#[trigger] list[i]).version@) is Ok,
        n < list.len() ==> versions::read_version(list[n].version@) is Err,
    ensures
        first_unreadable(list) == n,
    decreases n,
{
    if n > 0 {
        let rest = list.drop_first();
        assert forall|i: int| 0 <= i < n - 1 implies versions::read_version(
            (#[trigger] rest[i]).version@,
        ) is Ok by {
            assert(rest[i] == list[i + 1]);
        }
        lemma_first_unreadable(rest, n - 1);
    }
}

/// The version of a package to take: the greatest one that is wanted, or the
/// greatest stable one, or the greatest one.
pub fn select_manifest_version(
    package_name: &str,
    versions: &Vec<CookbookVersionSection>,
    version_req: Option<&str>,
) -> (r: Result<SelectedCookbookVersion, Failure>)
    ensures
        match chosen(
            package_name@,
            versions@,
            match version_req {
                Some(raw) => Some(raw@),
                None => None,
            },
        ) {
            Err(message) => r is Err && r->Err_0@ == message,
            Ok(i) => 0 <= i < versions@.len() && match typed_source(versions@[i].source) {
                Err(message) => r is Err && r->Err_0@ == message,
                Ok(source) => r is Ok && r->Ok_0.index == i && r->Ok_0.source@ == source,
            },
        },
        r is Ok && version_req is Some ==> ({
            let all = listed(versions@);
            let matcher = versions::read_matcher(version_req->0@)->Ok_0;
            versions::wanted(matcher, all[r->Ok_0.index as int]) && none_greater(
                all,
                |j: int| versions::wanted(matcher, all[j]),
                r->Ok_0.index as int,
                versions@.len() as int,
            )
        }),
        r is Ok && version_req is None ==> ({
            let all = listed(versions@);
            let best = r->Ok_0.index as int;
            if is_stable(versions@[best], all[best]) {
                none_greater(
                    all,
                    |j: int| is_stable(versions@[j], all[j]),
                    best,
                    versions@.len() as int,
                )
            } else {
                &&& forall|j: int|
                    0 <= j < versions@.len() ==> !is_stable(#[trigger] versions@[j], all[j])
                &&& none_greater(all, |j: int| true, best, versions@.len() as int)
            }
        }),
        r matches Ok(taken) ==> forall|j: int|
            taken.index < j < versions@.len() && (#[trigger] versions@[j]).stability
                == versions@[taken.index as int].stability ==> versions@[j].version@
                != versions@[taken.index as int].version@,
{
    if versions.len() == 0 {
        let mut message = "package '".to_owned();
        message.append(package_name);
        message.append("' has no versions in cookbook recipe");
        return Err(Failure::new(message));
    }
    let ghost all = listed(versions@);
    let mut parsed: Vec<SemVersion> = Vec::new();
    let mut i: usize = 0;
    while i < versions.len()
        invariant
            i <= versions@.len(),
            versions@.len() > 0,
            parsed@.len() == i,
            forall|j: int|
                0 <= j < i ==> versions::read_version((#[trigger] versions@[j]).version@) == Ok::<
                    versions::VersionView,
                    Seq<char>,
                >(parsed@[j]@),
        decreases versions.len() - i,
    {
        match versions::parse_semver_loose(versions[i].version.as_str()) {
            Ok(version) => {
                parsed.push(version);
            },
            Err(_) => {
                proof {
                    lemma_first_unreadable(versions@, i as int);
                }
                let mut message = "package '".to_owned();
                message.append(package_name);
                message.append("' contains invalid version '");
                message.append(versions[i].version.as_str());
                message.append("' in cookbook");
                return Err(Failure::new(message));
            },
        }
        i += 1;
    }
    proof {
        lemma_first_unreadable(versions@, versions@.len() as int);
        assert forall|j: int| 0 <= j < parsed@.len() implies versions::is_version(
            #[trigger] parsed@[j]@,
        ) by {
            lemma_read_is_version(versions@[j].version@);
        }
    }
    assert(version_views(parsed@) =~= all);
    let best = match version_req {
        Some(raw) => {
            let matcher = match versions::parse_version_matcher(raw) {
                Ok(matcher) => matcher,
                Err(_) => {
                    let mut message = "failed to parse requested version '".to_owned();
                    message.append(raw);
                    message.append("' for package '");
                    message.append(package_name);
                    message.append("'");
                    return Err(Failure::new(message));
                },
            };
            let mut admitted: Vec<bool> = Vec::new();
            let mut i: usize = 0;
            while i < parsed.len()
                invariant
                    i <= parsed@.len(),
                    admitted@.len() == i,
                    forall|j: int|
                        0 <= j < i ==> #[trigger] admitted@[j] == versions::wanted(
                            matcher@,
                            parsed@[j]@,
                        ),
                decreases parsed.len() - i,
            {
                admitted.push(matcher.matches(&parsed[i]));
                i += 1;
            }
            proof {
                lemma_greatest_same(
                    all,
                    |i: int| admitted@[i],
                    |i: int| versions::wanted(matcher@, all[i]),
                );
            }
            match pick_greatest(&parsed, &admitted) {
                Some(index) => {
                    assert forall|j: int|
                        0 <= j < versions@.len() && j != index && versions::wanted(
                            matcher@,
                            all[j],
                        ) implies !versions::precedes(all[index as int], all[j]) by {
                        assert((|j: int| admitted@[j])(j));
                    }
                    assert forall|j: int|
                        index < j < versions@.len() && (#[trigger] versions@[j]).stability
                            == versions@[index as int].stability implies versions@[j].version@
                        != versions@[index as int].version@ by {
                        if versions@[j].version@ == versions@[index as int].version@ {
                            assert(all[j] == all[index as int]);
                            assert(parsed@[j]@ == all[j] && parsed@[index as int]@ == all[index as int]);
                            assert(admitted@[j] == admitted@[index as int]);
                        }
                    }
                    index
                },
                None => {
                    let mut message = "package '".to_owned();
                    message.append(package_name);
                    message.append("' has no version that satisfies '");
                    message.append(raw);
                    message.append("'");
                    return Err(Failure::new(message));
                },
            }
        },
        None => {
            let mut stable: Vec<bool> = Vec::new();
            let mut every: Vec<bool> = Vec::new();
            let mut i: usize = 0;
            while i < parsed.len()
                invariant
                    i <= parsed@.len() == versions@.len(),
                    stable@.len() == i,
                    every@.len() == i,
                    forall|j: int|
                        0 <= j < i ==> #[trigger] stable@[j] == is_stable(
                            versions@[j],
                            parsed@[j]@,
                        ),
                    forall|j: int| 0 <= j < i ==> #[trigger] every@[j],
                decreases parsed.len() - i,
            {
                stable.push(is_stable_release(&versions[i], &parsed[i]));
                every.push(true);
                i += 1;
            }
            proof {
                lemma_greatest_same(
                    all,
                    |i: int| stable@[i],
                    |i: int| is_stable(versions@[i], all[i]),
                );
                lemma_greatest_same(all, |i: int| every@[i], |i: int| true);
            }
            match pick_greatest(&parsed, &stable) {
                Some(index) => {
                    assert forall|j: int|
                        0 <= j < versions@.len() && j != index && is_stable(
                            versions@[j],
                            all[j],
                        ) implies !versions::precedes(all[index as int], all[j]) by {
                        assert((|j: int| stable@[j])(j));
                    }
                    assert forall|j: int|
                        index < j < versions@.len() && (#[trigger] versions@[j]).stability
                            == versions@[index as int].stability implies versions@[j].version@
                        != versions@[index as int].version@ by {
                        if versions@[j].version@ == versions@[index as int].version@ {
                            assert(all[j] == all[index as int]);
                            assert(parsed@[j]@ == all[j] && parsed@[index as int]@ == all[index as int]);
                            assert(stable@[j] == stable@[index as int]);
                        }
                    }
                    index
                },
                None => {
                    assert forall|j: int| 0 <= j < versions@.len() implies !is_stable(
                        #[trigger] versions@[j],
                        all[j],
                    ) by {
                        assert(!stable@[j]);
                    }
                    match pick_greatest(&parsed, &every) {
                        Some(index) => {
                            assert forall|j: int|
                                0 <= j < versions@.len() && j != index implies !versions::precedes(
                                all[index as int],
                                all[j],
                            ) by {
                                assert((|j: int| every@[j])(j));
                            }
                            assert forall|j: int|
                                index < j < versions@.len() && (#[trigger] versions@[j]).stability
                                    == versions@[index as int].stability implies versions@[j].version@
                                != versions@[index as int].version@ by {
                                if versions@[j].version@ == versions@[index as int].version@ {
                                    assert(all[j] == all[index as int]);
                                    assert(parsed@[j]@ == all[j] && parsed@[index as int]@ == all[index as int]);
                                    assert(every@[j] == every@[index as int]);
                                }
                            }
                            index
                        },
                        None => {
                            assert(!every@[0]);
                            0
                        },
                    }
                },
            }
        },
    };
    match resolve_typed_source(&versions[best].source) {
        Ok(source) => Ok(SelectedCookbookVersion { index: best, source }),
        Err(failure) => Err(failure),
    }
}

// ---------------------------------------------------------------------------
// The package
// ---------------------------------------------------------------------------

fn build_detail(
    package: &str,
    version: Option<String>,
    source: ResolvedCookbookSource,
    defaults: &Option<CookbookDefaultsSection>,
    build: &Option<CookbookBuildSection>,
) -> (r: DependencyDetail)
    ensures
        r@ == detail_of(package@, text::opt_text(version), source@, *defaults, *build),
{
    let named = match build {
        Some(b) => b.system,
        None => None,
    };
    let fallback = match defaults {
        Some(d) => d.build_system,
        None => None,
    };
    let mut detail = DependencyDetail::default();
    detail.git = Some(source.url);
    detail.rev = source.rev;
    detail.source_sha256 = source.sha256;
    detail.strip_prefix = source.strip_prefix;
    detail.registry_name = Some(package.to_owned());
    detail.registry_version = version;
    detail.build_system = if named.is_some() {
        named
    } else {
        fallback
    };
    detail.export = match defaults {
        Some(d) => d.export.clone(),
        None => DependencyExportConfig::default(),
    };
    detail.build = match build {
        Some(b) => cookbook_build_to_controls(b),
        None => DependencyBuildControls::default(),
    };
    detail
}

fn resolve_recipe(
    name: &str,
    recipe: &CookbookPackageManifest,
    url: &str,
    version_req: Option<&str>,
) -> (r: Result<DependencyDetail, Failure>)
    ensures
        match from_recipe(
            name@,
            *recipe,
            url@,
            match version_req {
                Some(raw) => Some(raw@),
                None => None,
            },
        ) {
            Ok(detail) => r is Ok && r->Ok_0@ == detail,
            Err(message) => r is Err && r->Err_0@ == message,
        },
{
    if recipe.versions.len() > 0 {
        let selected = match select_manifest_version(name, &recipe.versions, version_req) {
            Ok(selected) => selected,
            Err(failure) => {
                return Err(failure);
            },
        };
        let section = &recipe.versions[selected.index];
        let defaults = if section.defaults.is_some() {
            &section.defaults
        } else {
            &recipe.defaults
        };
        let build = if section.build.is_some() {
            &section.build
        } else {
            &recipe.build
        };
        return Ok(
            build_detail(
                recipe.package.name.as_str(),
                Some(section.version.clone()),
                selected.source,
                defaults,
                build,
            ),
        );
    }
    match &recipe.source {
        None => {
            let mut message = "package '".to_owned();
            message.append(name);
            message.append("' has no source definition in cookbook manifest ");
            message.append(url);
            Err(Failure::new(message))
        },
        Some(section) => match resolve_source_section(section) {
            Err(_) => {
                let mut message = "package '".to_owned();
                message.append(name);
                message.append("' has invalid source definition in cookbook manifest ");
                message.append(url);
                Err(Failure::new(message))
            },
            Ok(source) => Ok(
                build_detail(
                    recipe.package.name.as_str(),
                    text::copied_opt(&recipe.package.version),
                    source,
                    &recipe.defaults,
                    &recipe.build,
                ),
            ),
        },
    }
}

/// Looks up a package in the cookbook. `base` is where the user says that the
/// recipes are; `fetched` is the recipe, once it has been fetched.
pub fn resolve_package_from_cookbook(
    name: &str,
    version_req: Option<&str>,
    base: Option<&str>,
    fetched: Option<&Result<CookbookPackageManifest, Failure>>,
) -> (r: RegistryStep)
    ensures
        r@ == lookup_step(
            name@,
            match version_req {
                Some(raw) => Some(raw@),
                None => None,
            },
            match base {
                Some(b) => Some(b@),
                None => None,
            },
            match fetched {
                Some(f) => Some(*f),
                None => None,
            },
        ),
{
    let normalized = match normalize_package_name(name) {
        Ok(normalized) => normalized,
        Err(failure) => {
            return RegistryStep::Finished(Err(failure));
        },
    };
    let url = cookbook_manifest_url(base, normalized.as_str());
    match fetched {
        None => RegistryStep::Fetch(url),
        Some(Err(failure)) => RegistryStep::Finished(Err(failure.copied())),
        Some(Ok(recipe)) => match resolve_recipe(name, recipe, url.as_str(), version_req) {
            Err(failure) => RegistryStep::Finished(Err(failure)),
            Ok(detail) => RegistryStep::Finished(
                Ok(RegistryResolution { dependency_name: normalized, detail }),
            ),
        },
    }
}

}
