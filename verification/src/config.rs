//! What a project's `cook.toml` says.
use vstd::prelude::*;

use crate::ordered_map;
use crate::ordered_map::OrderedMap;
use crate::text;

verus! {

broadcast use vstd::string::group_string_axioms;

/// The contents of `cook.toml`.
#[derive(Debug, Clone)]
pub struct CookConfig {
    pub project: Project,
    pub build: BuildConfig,
    pub resolver: ResolverConfig,
    pub dependencies: OrderedMap<DependencySpec>,
}

/// The `[project]` section.
#[derive(Debug, Clone)]
pub struct Project {
    pub name: String,
    pub cpp_standard: String,
    pub abi: AbiProfile,
}

/// The `[build]` section.
#[derive(Debug, Clone)]
pub struct BuildConfig {
    pub backend: BuildBackend,
    pub compiler: BuildCompiler,
    pub strict_lock_in_ci: bool,
    pub offline: bool,
    pub threads: usize,
    pub flags: BuildProfileFlags,
}

/// Compile parameters per build profile.
#[derive(Debug)]
pub struct BuildProfileFlags {
    pub debug: BuildCompileParams,
    pub release: BuildCompileParams,
}

/// Flags handed to the compilers.
#[derive(Debug)]
pub struct BuildCompileParams {
    pub optimization: Option<OptimizationLevel>,
    pub fast_math: bool,
    pub c_flags: Vec<String>,
    pub cxx_flags: Vec<String>,
}

#[derive(Debug, Clone, Copy, PartialEq, Eq, Structural)]
pub enum OptimizationLevel {
    O0,
    O1,
    O2,
    O3,
    Os,
    Oz,
}

/// The `[resolver]` section.
#[derive(Debug, Clone)]
pub struct ResolverConfig {
    pub write_lockfile: bool,
}

#[derive(Debug, Clone, Copy, PartialEq, Eq, Structural)]
pub enum BuildBackend {
    Cmake,
    Make,
}

#[derive(Debug, Clone, Copy, PartialEq, Eq, Structural)]
pub enum BuildCompiler {
    Gcc,
    Msvc,
}

/// A dependency as it is written in `cook.toml`: a path, or a table of settings.
#[derive(Debug, Clone)]
pub enum DependencySpec {
    Path(String),
    Detailed(Box<DependencyDetail>),
}

/// The settings of a dependency.
#[derive(Debug)]
pub struct DependencyDetail {
    pub path: Option<String>,
    pub git: Option<String>,
    pub rev: Option<String>,
    pub branch: Option<String>,
    pub tag: Option<String>,
    pub source_sha256: Option<String>,
    pub strip_prefix: Option<String>,
    pub registry_name: Option<String>,
    pub registry_version: Option<String>,
    pub build_system: Option<DependencyBuildSystem>,
    pub export: DependencyExportConfig,
    pub build: DependencyBuildControls,
    pub public: bool,
    pub abi: AbiProfile,
}

/// How an external dependency is built.
#[derive(Debug)]
pub struct DependencyBuildControls {
    pub exclude: Vec<String>,
    pub configure_args: Vec<String>,
    pub build_args: Vec<String>,
    pub install_args: Vec<String>,
    pub cmake: DependencyCmakeBuildControls,
}

#[derive(Debug)]
pub struct DependencyCmakeBuildControls {
    pub defines: OrderedMap<String>,
}

/// What an external dependency offers to the packages that use it.
#[derive(Debug)]
pub struct DependencyExportConfig {
    pub include_dirs: Vec<String>,
    pub lib_dirs: Vec<String>,
    pub libs: Vec<String>,
}

#[derive(Debug, Clone, Copy, PartialEq, Eq, Structural)]
pub enum DependencyBuildSystem {
    Auto,
    Cmake,
    Make,
}

/// The properties that binary code has to share to be linked together.
#[derive(Debug)]
pub struct AbiProfile {
    pub compiler: Option<String>,
    pub compiler_version: Option<String>,
    pub c_runtime: Option<String>,
    pub cxx_runtime: Option<String>,
    pub exceptions: Option<bool>,
    pub rtti: Option<bool>,
    pub pic: Option<bool>,
    pub visibility: Option<String>,
    pub arch: Option<String>,
}

#[derive(Debug, Clone, Copy, PartialEq, Eq, Structural)]
pub enum DependencyVisibility {
    Public,
    Private,
}

/// A dependency with every setting filled in.
#[derive(Debug, Clone)]
pub struct DependencyDescriptor {
    pub source: DependencySource,
    pub visibility: DependencyVisibility,
    pub abi: AbiProfile,
    pub build_system: DependencyBuildSystem,
    pub export: DependencyExportConfig,
    pub build: DependencyBuildControls,
}

/// Where a dependency comes from.
#[derive(Debug, Clone)]
pub enum DependencySource {
    Path(String),
    Git { url: String, rev: Option<String>, branch: Option<String>, tag: Option<String> },
}

// ---------------------------------------------------------------------------
// Model
// ---------------------------------------------------------------------------

/// The model of an [`AbiProfile`].
#[verifier::ext_equal]
pub struct AbiView {
    pub compiler: Option<Seq<char>>,
    pub compiler_version: Option<Seq<char>>,
    pub c_runtime: Option<Seq<char>>,
    pub cxx_runtime: Option<Seq<char>>,
    pub exceptions: Option<bool>,
    pub rtti: Option<bool>,
    pub pic: Option<bool>,
    pub visibility: Option<Seq<char>>,
    pub arch: Option<Seq<char>>,
}

impl View for AbiProfile {
    type V = AbiView;

    open spec fn view(&self) -> AbiView {
        AbiView {
            compiler: text::opt_text(self.compiler),
            compiler_version: text::opt_text(self.compiler_version),
            c_runtime: text::opt_text(self.c_runtime),
            cxx_runtime: text::opt_text(self.cxx_runtime),
            exceptions: self.exceptions,
            rtti: self.rtti,
            pic: self.pic,
            visibility: text::opt_text(self.visibility),
            arch: text::opt_text(self.arch),
        }
    }
}

/// The profile that fixes nothing.
pub open spec fn open_abi() -> AbiView {
    AbiView {
        compiler: None,
        compiler_version: None,
        c_runtime: None,
        cxx_runtime: None,
        exceptions: None,
        rtti: None,
        pic: None,
        visibility: None,
        arch: None,
    }
}

/// The model of a [`DependencyBuildControls`].
#[verifier::ext_equal]
pub struct ControlsView {
    pub exclude: Seq<Seq<char>>,
    pub configure_args: Seq<Seq<char>>,
    pub build_args: Seq<Seq<char>>,
    pub install_args: Seq<Seq<char>>,
    pub defines: Seq<(Seq<char>, Seq<char>)>,
}

impl View for DependencyBuildControls {
    type V = ControlsView;

    open spec fn view(&self) -> ControlsView {
        ControlsView {
            exclude: text::texts(self.exclude@),
            configure_args: text::texts(self.configure_args@),
            build_args: text::texts(self.build_args@),
            install_args: text::texts(self.install_args@),
            defines: ordered_map::text_pairs(self.cmake.defines@),
        }
    }
}

/// The controls that change nothing.
pub open spec fn plain_controls() -> ControlsView {
    ControlsView {
        exclude: Seq::empty(),
        configure_args: Seq::empty(),
        build_args: Seq::empty(),
        install_args: Seq::empty(),
        defines: Seq::empty(),
    }
}

/// The model of a [`DependencyExportConfig`].
#[verifier::ext_equal]
pub struct ExportView {
    pub include_dirs: Seq<Seq<char>>,
    pub lib_dirs: Seq<Seq<char>>,
    pub libs: Seq<Seq<char>>,
}

impl View for DependencyExportConfig {
    type V = ExportView;

    open spec fn view(&self) -> ExportView {
        ExportView {
            include_dirs: text::texts(self.include_dirs@),
            lib_dirs: text::texts(self.lib_dirs@),
            libs: text::texts(self.libs@),
        }
    }
}

/// The export section that names nothing.
pub open spec fn no_exports() -> ExportView {
    ExportView { include_dirs: Seq::empty(), lib_dirs: Seq::empty(), libs: Seq::empty() }
}

/// The model of a [`DependencySource`].
#[verifier::ext_equal]
pub enum SourceView {
    Path(Seq<char>),
    Git {
        url: Seq<char>,
        rev: Option<Seq<char>>,
        branch: Option<Seq<char>>,
        tag: Option<Seq<char>>,
    },
}

impl View for DependencySource {
    type V = SourceView;

    open spec fn view(&self) -> SourceView {
        match self {
            DependencySource::Path(path) => SourceView::Path(path@),
            DependencySource::Git { url, rev, branch, tag } => SourceView::Git {
                url: url@,
                rev: text::opt_text(*rev),
                branch: text::opt_text(*branch),
                tag: text::opt_text(*tag),
            },
        }
    }
}

/// The model of a [`DependencyDescriptor`].
#[verifier::ext_equal]
pub struct DescriptorView {
    pub source: SourceView,
    pub visibility: DependencyVisibility,
    pub abi: AbiView,
    pub build_system: DependencyBuildSystem,
    pub export: ExportView,
    pub build: ControlsView,
}

impl View for DependencyDescriptor {
    type V = DescriptorView;

    open spec fn view(&self) -> DescriptorView {
        DescriptorView {
            source: self.source@,
            visibility: self.visibility,
            abi: self.abi@,
            build_system: self.build_system,
            export: self.export@,
            build: self.build@,
        }
    }
}

/// The model of a [`DependencyDetail`].
#[verifier::ext_equal]
pub struct DetailView {
    pub path: Option<Seq<char>>,
    pub git: Option<Seq<char>>,
    pub rev: Option<Seq<char>>,
    pub branch: Option<Seq<char>>,
    pub tag: Option<Seq<char>>,
    pub source_sha256: Option<Seq<char>>,
    pub strip_prefix: Option<Seq<char>>,
    pub registry_name: Option<Seq<char>>,
    pub registry_version: Option<Seq<char>>,
    pub build_system: Option<DependencyBuildSystem>,
    pub export: ExportView,
    pub build: ControlsView,
    pub public: bool,
    pub abi: AbiView,
}

impl View for DependencyDetail {
    type V = DetailView;

    open spec fn view(&self) -> DetailView {
        DetailView {
            path: text::opt_text(self.path),
            git: text::opt_text(self.git),
            rev: text::opt_text(self.rev),
            branch: text::opt_text(self.branch),
            tag: text::opt_text(self.tag),
            source_sha256: text::opt_text(self.source_sha256),
            strip_prefix: text::opt_text(self.strip_prefix),
            registry_name: text::opt_text(self.registry_name),
            registry_version: text::opt_text(self.registry_version),
            build_system: self.build_system,
            export: self.export@,
            build: self.build@,
            public: self.public,
            abi: self.abi@,
        }
    }
}

/// The detail in which nothing is set.
pub open spec fn empty_detail() -> DetailView {
    DetailView {
        path: None,
        git: None,
        rev: None,
        branch: None,
        tag: None,
        source_sha256: None,
        strip_prefix: None,
        registry_name: None,
        registry_version: None,
        build_system: None,
        export: no_exports(),
        build: plain_controls(),
        public: false,
        abi: open_abi(),
    }
}

/// A dependency that `is_public` marks public is public, any other private.
pub open spec fn visibility_for(is_public: bool) -> DependencyVisibility {
    if is_public {
        DependencyVisibility::Public
    } else {
        DependencyVisibility::Private
    }
}

/// The build system that is named, or else detection.
pub open spec fn build_system_or_auto(
    named: Option<DependencyBuildSystem>,
) -> DependencyBuildSystem {
    match named {
        Some(system) => system,
        None => DependencyBuildSystem::Auto,
    }
}

/// The text of `value`, or none at all.
pub open spec fn text_or_empty(value: Option<Seq<char>>) -> Seq<char> {
    match value {
        Some(t) => t,
        None => Seq::empty(),
    }
}

/// Where a dependency with the settings `detail` comes from: a path wins over a repository.
pub open spec fn detail_source(detail: DetailView) -> SourceView {
    match detail.path {
        Some(path) => SourceView::Path(path),
        None => SourceView::Git {
            url: text_or_empty(detail.git),
            rev: detail.rev,
            branch: detail.branch,
            tag: detail.tag,
        },
    }
}

/// What a dependency declaration means.
pub open spec fn described(spec: DependencySpec) -> DescriptorView {
    match spec {
        DependencySpec::Path(path) => DescriptorView {
            source: SourceView::Path(path@),
            visibility: DependencyVisibility::Private,
            abi: open_abi(),
            build_system: DependencyBuildSystem::Auto,
            export: no_exports(),
            build: plain_controls(),
        },
        DependencySpec::Detailed(detail) => DescriptorView {
            source: detail_source(detail@),
            visibility: visibility_for(detail.public),
            abi: detail.abi@,
            build_system: build_system_or_auto(detail.build_system),
            export: detail.export@,
            build: detail.build@,
        },
    }
}

// ---------------------------------------------------------------------------
// Defaults and copies
// ---------------------------------------------------------------------------

impl Default for AbiProfile {
    fn default() -> (r: Self)
        ensures
            r@ == open_abi(),
    {
        AbiProfile {
            compiler: None,
            compiler_version: None,
            c_runtime: None,
            cxx_runtime: None,
            exceptions: None,
            rtti: None,
            pic: None,
            visibility: None,
            arch: None,
        }
    }
}

impl Clone for AbiProfile {
    fn clone(&self) -> (r: Self)
        ensures
            r@ == self@,
    {
        AbiProfile {
            compiler: text::copied_opt(&self.compiler),
            compiler_version: text::copied_opt(&self.compiler_version),
            c_runtime: text::copied_opt(&self.c_runtime),
            cxx_runtime: text::copied_opt(&self.cxx_runtime),
            exceptions: self.exceptions,
            rtti: self.rtti,
            pic: self.pic,
            visibility: text::copied_opt(&self.visibility),
            arch: text::copied_opt(&self.arch),
        }
    }
}

impl Default for DependencyCmakeBuildControls {
    fn default() -> (r: Self)
        ensures
            r.defines@.len() == 0,
    {
        DependencyCmakeBuildControls { defines: OrderedMap::new() }
    }
}

impl Clone for DependencyCmakeBuildControls {
    fn clone(&self) -> (r: Self)
        ensures
            r.defines@ == self.defines@,
    {
        DependencyCmakeBuildControls { defines: self.defines.copied() }
    }
}

impl Default for DependencyBuildControls {
    fn default() -> (r: Self)
        ensures
            r@ == plain_controls(),
    {
        let r = DependencyBuildControls {
            exclude: Vec::new(),
            configure_args: Vec::new(),
            build_args: Vec::new(),
            install_args: Vec::new(),
            cmake: DependencyCmakeBuildControls::default(),
        };
        assert(r@ =~= plain_controls());
        r
    }
}

impl Clone for DependencyBuildControls {
    fn clone(&self) -> (r: Self)
        ensures
            r@ == self@,
    {
        DependencyBuildControls {
            exclude: text::copied_texts(&self.exclude),
            configure_args: text::copied_texts(&self.configure_args),
            build_args: text::copied_texts(&self.build_args),
            install_args: text::copied_texts(&self.install_args),
            cmake: self.cmake.clone(),
        }
    }
}

impl DependencyBuildControls {
    /// Whether two sets of controls say the same.
    pub fn same(&self, other: &Self) -> (r: bool)
        ensures
            r == (self@ == other@),
    {
        let r = text::same_texts(&self.exclude, &other.exclude) && text::same_texts(
            &self.configure_args,
            &other.configure_args,
        ) && text::same_texts(&self.build_args, &other.build_args) && text::same_texts(
            &self.install_args,
            &other.install_args,
        ) && self.cmake.defines.same(&other.cmake.defines);
        r
    }
}

impl Default for DependencyExportConfig {
    fn default() -> (r: Self)
        ensures
            r@ == no_exports(),
    {
        let r = DependencyExportConfig {
            include_dirs: Vec::new(),
            lib_dirs: Vec::new(),
            libs: Vec::new(),
        };
        assert(r@ =~= no_exports());
        r
    }
}

impl Clone for DependencyExportConfig {
    fn clone(&self) -> (r: Self)
        ensures
            r@ == self@,
    {
        DependencyExportConfig {
            include_dirs: text::copied_texts(&self.include_dirs),
            lib_dirs: text::copied_texts(&self.lib_dirs),
            libs: text::copied_texts(&self.libs),
        }
    }
}

impl Default for DependencyDetail {
    fn default() -> (r: Self)
        ensures
            r@ == empty_detail(),
    {
        DependencyDetail {
            path: None,
            git: None,
            rev: None,
            branch: None,
            tag: None,
            source_sha256: None,
            strip_prefix: None,
            registry_name: None,
            registry_version: None,
            build_system: None,
            export: DependencyExportConfig::default(),
            build: DependencyBuildControls::default(),
            public: false,
            abi: AbiProfile::default(),
        }
    }
}

impl Clone for DependencyDetail {
    fn clone(&self) -> (r: Self)
        ensures
            r@ == self@,
    {
        DependencyDetail {
            path: text::copied_opt(&self.path),
            git: text::copied_opt(&self.git),
            rev: text::copied_opt(&self.rev),
            branch: text::copied_opt(&self.branch),
            tag: text::copied_opt(&self.tag),
            source_sha256: text::copied_opt(&self.source_sha256),
            strip_prefix: text::copied_opt(&self.strip_prefix),
            registry_name: text::copied_opt(&self.registry_name),
            registry_version: text::copied_opt(&self.registry_version),
            build_system: self.build_system,
            export: self.export.clone(),
            build: self.build.clone(),
            public: self.public,
            abi: self.abi.clone(),
        }
    }
}

impl Default for BuildCompileParams {
    fn default() -> (r: Self)
        ensures
            r.optimization is None,
            !r.fast_math,
            r.c_flags@.len() == 0,
            r.cxx_flags@.len() == 0,
    {
        BuildCompileParams {
            optimization: None,
            fast_math: false,
            c_flags: Vec::new(),
            cxx_flags: Vec::new(),
        }
    }
}

impl Clone for BuildCompileParams {
    fn clone(&self) -> (r: Self)
        ensures
            r.optimization == self.optimization,
            r.fast_math == self.fast_math,
            r.c_flags@ == self.c_flags@,
            r.cxx_flags@ == self.cxx_flags@,
    {
        BuildCompileParams {
            optimization: self.optimization,
            fast_math: self.fast_math,
            c_flags: text::copied_texts(&self.c_flags),
            cxx_flags: text::copied_texts(&self.cxx_flags),
        }
    }
}

impl Default for BuildProfileFlags {
    fn default() -> (r: Self)
        ensures
            r.debug.optimization is None && r.release.optimization is None,
            !r.debug.fast_math && !r.release.fast_math,
            r.debug.c_flags@.len() == 0 && r.release.c_flags@.len() == 0,
            r.debug.cxx_flags@.len() == 0 && r.release.cxx_flags@.len() == 0,
    {
        BuildProfileFlags {
            debug: BuildCompileParams::default(),
            release: BuildCompileParams::default(),
        }
    }
}

impl Clone for BuildProfileFlags {
    fn clone(&self) -> (r: Self)
        ensures
            r.debug.optimization == self.debug.optimization,
            r.debug.fast_math == self.debug.fast_math,
            r.debug.c_flags@ == self.debug.c_flags@,
            r.debug.cxx_flags@ == self.debug.cxx_flags@,
            r.release.optimization == self.release.optimization,
            r.release.fast_math == self.release.fast_math,
            r.release.c_flags@ == self.release.c_flags@,
            r.release.cxx_flags@ == self.release.cxx_flags@,
    {
        BuildProfileFlags { debug: self.debug.clone(), release: self.release.clone() }
    }
}

impl Default for ResolverConfig {
    fn default() -> (r: Self)
        ensures
            r.write_lockfile,
    {
        ResolverConfig { write_lockfile: true }
    }
}

/// How many build threads to use where `cook.toml` does not say: as many as the
/// machine offers, or one where it does not tell.
pub fn default_build_threads(available: Option<usize>) -> (r: usize)
    ensures
        r == (match available {
            Some(n) => n,
            None => 1,
        }),
{
    match available {
        Some(n) => n,
        None => 1,
    }
}

/// The value of a flag that is on unless it is switched off.
pub fn default_true() -> (r: bool)
    ensures
        r,
{
    true
}

impl BuildConfig {
    /// The `[build]` section of a project that has none, on a machine that
    /// offers `available` threads.
    pub fn defaults(available: Option<usize>) -> (r: Self)
        ensures
            r.backend == BuildBackend::Cmake,
            r.compiler == BuildCompiler::Gcc,
            r.strict_lock_in_ci,
            !r.offline,
            r.threads == (match available {
                Some(n) => n,
                None => 1,
            }),
            r.flags.debug.optimization is None && r.flags.release.optimization is None,
            !r.flags.debug.fast_math && !r.flags.release.fast_math,
            r.flags.debug.c_flags@.len() == 0 && r.flags.release.c_flags@.len() == 0,
            r.flags.debug.cxx_flags@.len() == 0 && r.flags.release.cxx_flags@.len() == 0,
    {
        BuildConfig {
            backend: BuildBackend::Cmake,
            compiler: BuildCompiler::Gcc,
            strict_lock_in_ci: default_true(),
            offline: false,
            threads: default_build_threads(available),
            flags: BuildProfileFlags::default(),
        }
    }
}

fn visibility_from_bool(is_public: bool) -> (r: DependencyVisibility)
    ensures
        r == visibility_for(is_public),
{
    if is_public {
        DependencyVisibility::Public
    } else {
        DependencyVisibility::Private
    }
}

impl DependencySpec {
    /// The declaration with every setting filled in.
    pub fn descriptor(&self) -> (r: DependencyDescriptor)
        ensures
            r@ == described(*self),
    {
        match self {
            DependencySpec::Path(path) => DependencyDescriptor {
                source: DependencySource::Path(path.clone()),
                visibility: DependencyVisibility::Private,
                abi: AbiProfile::default(),
                build_system: DependencyBuildSystem::Auto,
                export: DependencyExportConfig::default(),
                build: DependencyBuildControls::default(),
            },
            DependencySpec::Detailed(detail) => {
                let source = match &detail.path {
                    Some(path) => DependencySource::Path(path.clone()),
                    None => DependencySource::Git {
                        url: match &detail.git {
                            Some(url) => url.clone(),
                            None => String::new(),
                        },
                        rev: text::copied_opt(&detail.rev),
                        branch: text::copied_opt(&detail.branch),
                        tag: text::copied_opt(&detail.tag),
                    },
                };
                DependencyDescriptor {
                    source,
                    visibility: visibility_from_bool(detail.public),
                    abi: detail.abi.clone(),
                    build_system: match detail.build_system {
                        Some(system) => system,
                        None => DependencyBuildSystem::Auto,
                    },
                    export: detail.export.clone(),
                    build: detail.build.clone(),
                }
            },
        }
    }
}

// ---------------------------------------------------------------------------
// Laws
// ---------------------------------------------------------------------------

/// A bare path is a private dependency about which nothing else is said. Of a
/// detailed one every setting counts: a path comes before a repository, it is public
/// exactly if it says so, and where it names no build system, that is detected.
pub proof fn declarations_mean_what_they_say(spec: DependencySpec)
    ensures
        spec matches DependencySpec::Path(path) ==> {
            let d = described(spec);
            &&& d.source == SourceView::Path(path@)
            &&& d.visibility == DependencyVisibility::Private
            &&& d.build_system == DependencyBuildSystem::Auto
            &&& d.export.include_dirs.len() == 0 && d.export.lib_dirs.len() == 0
                && d.export.libs.len() == 0
            &&& d.build.exclude.len() == 0 && d.build.configure_args.len() == 0
                && d.build.build_args.len() == 0 && d.build.install_args.len() == 0
                && d.build.defines.len() == 0
            &&& d.abi.compiler is None && d.abi.compiler_version is None && d.abi.c_runtime is None
                && d.abi.cxx_runtime is None && d.abi.exceptions is None && d.abi.rtti is None
                && d.abi.pic is None && d.abi.visibility is None && d.abi.arch is None
        },
        spec matches DependencySpec::Detailed(detail) ==> {
            let d = described(spec);
            &&& detail.path matches Some(path) ==> d.source == SourceView::Path(path@)
            &&& detail.path is None ==> {
                &&& d.source matches SourceView::Git { url, rev, branch, tag }
                &&& detail.git matches Some(git) ==> url == git@
                &&& detail.git is None ==> url.len() == 0
                &&& rev == text::opt_text(detail.rev)
                &&& branch == text::opt_text(detail.branch)
                &&& tag == text::opt_text(detail.tag)
            }
            &&& d.visibility == DependencyVisibility::Public <==> detail.public
            &&& detail.build_system matches Some(system) ==> d.build_system == system
            &&& detail.build_system is None ==> d.build_system == DependencyBuildSystem::Auto
            &&& d.export.include_dirs == text::texts(detail.export.include_dirs@)
            &&& d.export.lib_dirs == text::texts(detail.export.lib_dirs@)
            &&& d.export.libs == text::texts(detail.export.libs@)
            &&& d.build.exclude == text::texts(detail.build.exclude@)
            &&& d.build.configure_args == text::texts(detail.build.configure_args@)
            &&& d.build.build_args == text::texts(detail.build.build_args@)
            &&& d.build.install_args == text::texts(detail.build.install_args@)
            &&& d.abi.compiler == text::opt_text(detail.abi.compiler)
            &&& d.abi.compiler_version == text::opt_text(detail.abi.compiler_version)
            &&& d.abi.c_runtime == text::opt_text(detail.abi.c_runtime)
            &&& d.abi.cxx_runtime == text::opt_text(detail.abi.cxx_runtime)
            &&& d.abi.exceptions == detail.abi.exceptions
            &&& d.abi.rtti == detail.abi.rtti
            &&& d.abi.pic == detail.abi.pic
            &&& d.abi.visibility == text::opt_text(detail.abi.visibility)
            &&& d.abi.arch == text::opt_text(detail.abi.arch)
        },
{
}

}
