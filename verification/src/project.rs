//! The project in the current directory: its manifest and the packages it needs.
use vstd::prelude::*;
use vstd::string::*;

use crate::config::CookConfig;
use crate::failure::Failure;
use crate::findings;
use crate::findings::{Findings, Request, Stop};
use crate::packages;
use crate::packages::ResolutionResult;
use crate::resolution;
use crate::resolution_laws;
use crate::resolver;
use crate::resolver::ResolveOptions;
use crate::text;

verus! {

broadcast use vstd::string::group_string_axioms;

/// What is known so far of the project.
#[derive(Debug)]
pub struct ProjectReplies {
    /// What its manifest says.
    pub config: Option<Result<CookConfig, Failure>>,
    /// Whether the directories that it needs could be created.
    pub directories: Option<Result<(), Failure>>,
    /// The path of its manifest with links resolved.
    pub manifest: Option<Result<String, Failure>>,
    /// What is known of the packages that it needs.
    pub findings: Findings,
}

/// What to do next to know the packages that the project needs.
#[derive(Debug)]
pub enum ProjectStep {
    /// Read the manifest at this path.
    LoadConfig(String),
    /// Create these directories.
    CreateDirectories(Vec<String>),
    /// Resolve the links in this path.
    Locate(String),
    /// Answer a request.
    Find(Request),
    /// The packages cannot be known.
    Failed(Failure),
}

/// The model of a [`ProjectStep`].
#[verifier::ext_equal]
pub enum ProjectStepView {
    LoadConfig(Seq<char>),
    CreateDirectories(Seq<Seq<char>>),
    Locate(Seq<char>),
    Find(findings::RequestView),
    Failed(Seq<char>),
}

impl View for ProjectStep {
    type V = ProjectStepView;

    open spec fn view(&self) -> ProjectStepView {
        match self {
            ProjectStep::LoadConfig(path) => ProjectStepView::LoadConfig(path@),
            ProjectStep::CreateDirectories(list) => ProjectStepView::CreateDirectories(
                text::texts(list@),
            ),
            ProjectStep::Locate(path) => ProjectStepView::Locate(path@),
            ProjectStep::Find(request) => ProjectStepView::Find(request@),
            ProjectStep::Failed(failure) => ProjectStepView::Failed(failure@),
        }
    }
}

/// How the packages of a project are looked for.
pub open spec fn walk_options(cfg: CookConfig, windows: bool) -> resolution::WalkOptions {
    resolution::WalkOptions { workspace_root: "."@, offline: cfg.build.offline, windows }
}

/// The packages that the project needs, or what to do next to know them. The
/// directories `needed` have to be there first.
pub open spec fn project_step(
    needed: Seq<Seq<char>>,
    replies: ProjectReplies,
    windows: bool,
) -> Result<packages::ResolutionView, ProjectStepView> {
    match replies.config {
        None => Err(ProjectStepView::LoadConfig("cook.toml"@)),
        Some(Err(failure)) => Err(ProjectStepView::Failed(failure@)),
        Some(Ok(cfg)) => match replies.directories {
            None => Err(ProjectStepView::CreateDirectories(needed)),
            Some(Err(failure)) => Err(ProjectStepView::Failed(failure@)),
            Some(Ok(_)) => match replies.manifest {
                None => Err(ProjectStepView::Locate("cook.toml"@)),
                Some(Err(failure)) => Err(ProjectStepView::Failed(failure@)),
                Some(Ok(path)) => match resolution::resolved(
                    walk_options(cfg, windows),
                    replies.findings,
                    path@,
                ) {
                    Ok(result) => Ok(result),
                    Err(findings::StopView::Need(request)) => Err(ProjectStepView::Find(request)),
                    Err(findings::StopView::Failed(message)) => Err(
                        ProjectStepView::Failed(message),
                    ),
                },
            },
        },
    }
}

/// What a step asks for is not known yet.
pub open spec fn is_open(step: ProjectStepView, replies: ProjectReplies) -> bool {
    match step {
        ProjectStepView::LoadConfig(_) => replies.config is None,
        ProjectStepView::CreateDirectories(_) => replies.directories is None,
        ProjectStepView::Locate(_) => replies.manifest is None,
        ProjectStepView::Find(request) => !resolution_laws::answered(replies.findings, request),
        ProjectStepView::Failed(_) => true,
    }
}

/// Only what is not known yet is asked for.
pub proof fn project_asks_for_what_is_missing(
    needed: Seq<Seq<char>>,
    replies: ProjectReplies,
    windows: bool,
)
    ensures
        project_step(needed, replies, windows) matches Err(step) ==> is_open(step, replies),
{
    if let (Some(Ok(cfg)), Some(Ok(path))) = (replies.config, replies.manifest) {
        resolution_laws::requests_are_proper(
            walk_options(cfg, windows),
            replies.findings,
            resolution::start(),
            path@,
            packages::OriginView::Root,
        );
    }
}

/// A project that is built offline asks for checkouts offline.
pub proof fn offline_projects_stay_offline(
    needed: Seq<Seq<char>>,
    replies: ProjectReplies,
    windows: bool,
    cfg: CookConfig,
)
    requires
        replies.config == Some(Ok::<CookConfig, Failure>(cfg)),
        cfg.build.offline,
    ensures
        project_step(needed, replies, windows) matches Err(
            ProjectStepView::Find(findings::RequestView::Checkout { want, .. }),
        ) ==> want.offline,
{
    if let Some(Ok(path)) = replies.manifest {
        resolution_laws::requests_are_proper(
            walk_options(cfg, windows),
            replies.findings,
            resolution::start(),
            path@,
            packages::OriginView::Root,
        );
    }
}

impl ProjectReplies {
    /// Nothing is known yet.
    pub fn new() -> (r: Self)
        ensures
            r.config is None,
            r.directories is None,
            r.manifest is None,
            r.findings.manifests@.len() == 0,
            r.findings.sights@.len() == 0,
            r.findings.checkouts@.len() == 0,
    {
        ProjectReplies {
            config: None,
            directories: None,
            manifest: None,
            findings: Findings::new(),
        }
    }
}

/// The packages that the project needs, or what to do next to know them. The
/// directories `needed` have to be there first.
pub fn resolve_project(needed: Vec<String>, replies: &ProjectReplies, windows: bool) -> (r: Result<
    ResolutionResult,
    ProjectStep,
>)
    ensures
        match project_step(text::texts(needed@), *replies, windows) {
            Ok(result) => r is Ok && r->Ok_0@ == result,
            Err(step) => r is Err && r->Err_0@ == step,
        },
{
    let cfg = match &replies.config {
        None => {
            return Err(ProjectStep::LoadConfig("cook.toml".to_owned()));
        },
        Some(Err(failure)) => {
            return Err(ProjectStep::Failed(failure.copied()));
        },
        Some(Ok(cfg)) => cfg,
    };
    match &replies.directories {
        None => {
            return Err(ProjectStep::CreateDirectories(needed));
        },
        Some(Err(failure)) => {
            return Err(ProjectStep::Failed(failure.copied()));
        },
        Some(Ok(_)) => {},
    }
    let path = match &replies.manifest {
        None => {
            return Err(ProjectStep::Locate("cook.toml".to_owned()));
        },
        Some(Err(failure)) => {
            return Err(ProjectStep::Failed(failure.copied()));
        },
        Some(Ok(path)) => path,
    };
    let options = ResolveOptions { workspace_root: ".".to_owned(), offline: cfg.build.offline };
    match resolver::resolve_from_manifest(path.as_str(), options, &replies.findings, windows) {
        Ok(result) => Ok(result),
        Err(Stop::Need(request)) => Err(ProjectStep::Find(request)),
        Err(Stop::Failed(failure)) => Err(ProjectStep::Failed(failure)),
    }
}

}
