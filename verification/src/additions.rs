//! Adding a dependency to a project.
use vstd::prelude::*;
use vstd::string::*;

use crate::archive;
use crate::archive::ExtractStep;
use crate::config;
use crate::config::{CookConfig, DependencyDetail, DependencySpec};
use crate::failure::Failure;
use crate::ordered_map;
use crate::paths;
use crate::programs::ProgramOutcome;
use crate::registry;
use crate::registry::{CookbookPackageManifest, RegistryStep};
use crate::text;

verus! {

broadcast use vstd::string::group_string_axioms;

/// What is known so far of a dependency to be added.
#[derive(Debug)]
pub struct AddReplies {
    /// Paths follow the rules of Windows.
    pub windows: bool,
    /// The recipe that was fetched from the cookbook.
    pub recipe: Option<Result<CookbookPackageManifest, Failure>>,
    /// The user has been told how the cookbook knows the package.
    pub told: bool,
    /// What git said of the head of the repository.
    pub head: Option<ProgramOutcome>,
    /// The archive that was downloaded.
    pub archive: Option<Result<Vec<u8>, Failure>>,
    /// Whether the archive could be unpacked into the cleaned destination, or
    /// why that could not be cleaned.
    pub unpacked: Option<Result<bool, Failure>>,
}

/// What to do next to add a dependency.
#[derive(Debug)]
pub enum AddStep {
    /// Read the manifest at this path.
    LoadConfig(String),
    /// Tell the user this.
    Tell(String),
    /// Fetch and read the recipe at this URL.
    FetchRecipe(String),
    /// Run git with these arguments.
    ReadHead(Vec<String>),
    /// Download the archive at this URL.
    Download(String),
    /// Clean the destination and unpack the archive in these steps.
    Unpack { destination: String, steps: Result<Vec<ExtractStep>, Failure> },
    /// The dependency has been added, which the user is told once the manifest
    /// has been written, or it cannot be added.
    Finished(Result<String, Failure>),
}

// ---------------------------------------------------------------------------
// Model
// ---------------------------------------------------------------------------

/// A URL of a git repository.
pub open spec fn is_git_url(url: Seq<char>) -> bool {
    ".git"@.is_suffix_of(text::lowered(text::trimmed(url)))
}

/// A URL of a zip archive.
pub open spec fn is_archive_url(url: Seq<char>) -> bool {
    let lower = text::lowered(text::trimmed(url));
    ".zip"@.is_suffix_of(lower) || text::has_text(lower, ".zip?"@)
}

/// The revision that git names for the head of the repository at `url`.
pub open spec fn head_revision(url: Seq<char>, outcome: ProgramOutcome) -> Result<
    Seq<char>,
    Seq<char>,
> {
    match outcome {
        ProgramOutcome::NotStarted(_) => Err("failed to run git ls-remote for '"@ + url + "'"@),
        ProgramOutcome::Ended { success, status, output } => {
            let words = text::words(output@);
            if !success {
                Err("git ls-remote failed for '"@ + url + "': status "@ + status@)
            } else if words.len() == 0 {
                Err("git ls-remote returned empty output"@)
            } else if vstd::utf8::encode_utf8(words[0]).len() < 8 {
                Err("resolved revision is invalid: "@ + words[0])
            } else {
                Ok(words[0])
            }
        },
    }
}

/// The complaint about the reply to a request for an archive, if it is none.
pub open spec fn archive_reply(url: Seq<char>, code: u16, shown: Seq<char>) -> Option<Seq<char>> {
    if code == 404 {
        Some("dependency archive was not found: "@ + url)
    } else if code < 200 || code >= 300 {
        Some("failed to download dependency archive "@ + url + ": HTTP "@ + shown)
    } else {
        None
    }
}

/// Where an archive is unpacked.
pub open spec fn archive_destination(windows: bool, name: Seq<char>) -> Seq<char> {
    paths::path_join(windows, paths::path_join(windows, ".cook"@, "deps"@), name)
}

/// What to do about a dependency that comes as an archive.
#[verifier::ext_equal]
pub enum ArchiveView {
    Download(Seq<char>),
    Unpack { destination: Seq<char>, steps: Result<Seq<archive::ExtractView>, Seq<char>> },
    Stored(Seq<char>),
    Failed(Seq<char>),
}

/// What to do next about a dependency that comes as an archive.
pub open spec fn archive_step(
    name: Seq<char>,
    url: Seq<char>,
    replies: AddReplies,
) -> ArchiveView {
    let destination = archive_destination(replies.windows, name);
    if !is_archive_url(url) {
        ArchiveView::Failed(
            "dependency source '"@ + url
                + "' is not a direct '.git' URL and does not look like a downloadable '.zip' URL"@,
        )
    } else {
        match replies.archive {
            None => ArchiveView::Download(url),
            Some(Err(failure)) => ArchiveView::Failed(failure@),
            Some(Ok(bytes)) => match replies.unpacked {
                None => ArchiveView::Unpack {
                    destination,
                    steps: archive::unpacking(replies.windows, bytes@, destination),
                },
                Some(Err(failure)) => ArchiveView::Failed(failure@),
                Some(Ok(false)) => ArchiveView::Failed("failed to extract archive '"@ + url + "'"@),
                Some(Ok(true)) => ArchiveView::Stored(paths::normalized(destination)),
            },
        }
    }
}

/// What to do next to add a dependency, with what is added in the end.
#[verifier::ext_equal]
pub enum AddView {
    LoadConfig(Seq<char>),
    Tell(Seq<char>),
    FetchRecipe(Seq<char>),
    ReadHead(Seq<Seq<char>>),
    Download(Seq<char>),
    Unpack { destination: Seq<char>, steps: Result<Seq<archive::ExtractView>, Seq<char>> },
    Added { detail: config::DetailView, message: Seq<char> },
    Failed(Seq<char>),
}

/// The arguments by which git names the head of the repository at `url`.
pub open spec fn head_words(url: Seq<char>) -> Seq<Seq<char>> {
    seq!["ls-remote"@, url, "HEAD"@]
}

/// What to do next to add a dependency whose source is known.
pub open spec fn add_from_source(
    name: Seq<char>,
    detail: config::DetailView,
    replies: AddReplies,
) -> AddView {
    match detail.git {
        None => AddView::Failed("dependency source URL is missing"@),
        Some(url) => if is_git_url(url) {
            let rev = match detail.rev {
                Some(rev) => Some(Ok::<Seq<char>, Seq<char>>(rev)),
                None => match replies.head {
                    None => None,
                    Some(outcome) => Some(head_revision(url, outcome)),
                },
            };
            match rev {
                None => AddView::ReadHead(head_words(url)),
                Some(Err(message)) => AddView::Failed(message),
                Some(Ok(rev)) => AddView::Added {
                    detail: config::DetailView { rev: Some(rev), ..detail },
                    message: "dependency '"@ + name + "' added at rev "@ + rev,
                },
            }
        } else {
            match archive_step(name, url, replies) {
                ArchiveView::Download(url) => AddView::Download(url),
                ArchiveView::Unpack { destination, steps } => AddView::Unpack {
                    destination,
                    steps,
                },
                ArchiveView::Failed(message) => AddView::Failed(message),
                ArchiveView::Stored(path) => AddView::Added {
                    detail: config::DetailView {
                        path: Some(path),
                        git: None,
                        rev: None,
                        branch: None,
                        tag: None,
                        ..detail
                    },
                    message: "dependency '"@ + name + "' added from archive source "@ + url,
                },
            }
        },
    }
}

/// What the user is told of a package that the cookbook knows.
pub open spec fn cookbook_note(name: Seq<char>, known_as: Seq<char>) -> Seq<char> {
    "package '"@ + name + "' resolved from cookbook as '"@ + known_as + "'"@
}

/// What is known of a project, before a dependency is added.
pub enum ProjectState {
    /// Its manifest has not been read.
    Unknown,
    /// Its manifest cannot be read.
    Broken(Seq<char>),
    /// It has a dependency of that name, or not.
    Known { taken: bool },
}

/// What to do next to add a dependency.
pub open spec fn add_step(
    name: Seq<char>,
    url: Option<Seq<char>>,
    state: ProjectState,
    base: Option<Seq<char>>,
    replies: AddReplies,
) -> AddView {
    if text::trimmed(name).len() == 0 {
        AddView::Failed("dependency name cannot be empty"@)
    } else {
        match state {
            ProjectState::Unknown => AddView::LoadConfig("cook.toml"@),
            ProjectState::Broken(message) => AddView::Failed(message),
            ProjectState::Known { taken } => if taken {
                AddView::Failed("dependency '"@ + name + "' already exists in cook.toml"@)
            } else {
                add_new(name, url, base, replies)
            },
        }
    }
}

/// What to do next to add a dependency that the project does not have.
pub open spec fn add_new(
    name: Seq<char>,
    url: Option<Seq<char>>,
    base: Option<Seq<char>>,
    replies: AddReplies,
) -> AddView {
    match url {
        Some(explicit) => if text::trimmed(explicit).len() == 0 {
            AddView::Failed("dependency source URL cannot be empty"@)
        } else {
            add_from_source(
                name,
                config::DetailView { git: Some(explicit), ..config::empty_detail() },
                replies,
            )
        },
        None => match registry::lookup_step(name, None, base, replies.recipe) {
            registry::StepView::Fetch(recipe_url) => AddView::FetchRecipe(recipe_url),
            registry::StepView::Failed(message) => AddView::Failed(message),
            registry::StepView::Found { dependency_name, detail } => if replies.told {
                add_from_source(name, detail, replies)
            } else {
                AddView::Tell(cookbook_note(name, dependency_name))
            },
        },
    }
}

// ---------------------------------------------------------------------------
// Laws
// ---------------------------------------------------------------------------

/// What the cookbook says of a package never names a path.
pub proof fn found_package_has_no_path(
    name: Seq<char>,
    version_req: Option<Seq<char>>,
    base: Option<Seq<char>>,
    fetched: Option<Result<CookbookPackageManifest, Failure>>,
)
    ensures
        registry::lookup_step(name, version_req, base, fetched) matches registry::StepView::Found {
            detail,
            ..
        } ==> detail.path is None && detail.git is Some,
{
}

/// A dependency that is added comes from a path, or from a repository with a
/// URL, pinned to a revision.
pub proof fn added_dependency_is_pinned(
    name: Seq<char>,
    url: Option<Seq<char>>,
    state: ProjectState,
    base: Option<Seq<char>>,
    replies: AddReplies,
)
    ensures
        add_step(name, url, state, base, replies) matches AddView::Added { detail, .. } ==> {
            match config::detail_source(detail) {
                config::SourceView::Path(_) => true,
                config::SourceView::Git { url, rev, .. } => text::trimmed(url).len() > 0
                    && rev is Some,
            }
        },
{
    found_package_has_no_path(name, None, base, replies.recipe);
    reveal_strlit(".git");
    assert forall|u: Seq<char>| is_git_url(u) implies text::trimmed(u).len() > 0 by {}
}

/// Adding a dependency keeps all others as they are.
pub proof fn other_dependencies_are_kept(
    before: CookConfig,
    after: CookConfig,
    name: Seq<char>,
    detail: config::DetailView,
    other: Seq<char>,
)
    requires
        is_added(before, after, name, detail),
        other != name,
    ensures
        ordered_map::lookup(after.dependencies@, other) == ordered_map::lookup(
            before.dependencies@,
            other,
        ),
{
    let a = ordered_map::map_of(after.dependencies@);
    let b = ordered_map::map_of(before.dependencies@);
    assert(a.dom().contains(other) == b.dom().contains(other));
    assert(a.dom().contains(other) ==> a[other] == b[other]);
}

/// A dependency that has been added cannot be added again.
pub proof fn added_dependency_is_taken(
    before: CookConfig,
    after: CookConfig,
    name: Seq<char>,
    detail: config::DetailView,
)
    requires
        is_added(before, after, name, detail),
    ensures
        project_state(Some(Ok(after)), name) == (ProjectState::Known { taken: true }),
        ordered_map::lookup(after.dependencies@, name) matches Some(DependencySpec::Detailed(added))
            && added@ == detail,
{
    let a = ordered_map::map_of(after.dependencies@);
    let new = choose|new: DependencyDetail|
        #![trigger new@]
        new@ == detail && a == ordered_map::map_of(before.dependencies@).insert(
            name,
            DependencySpec::Detailed(Box::new(new)),
        );
    assert(a.dom().contains(name));
    assert(a[name] == DependencySpec::Detailed(Box::new(new)));
}

/// A URL names a git repository exactly if it ends in `.git`, in small or capital
/// letters, apart from white space at its end.
pub proof fn git_urls_end_in_git(url: Seq<char>)
    requires
        text::trimmed(url) == url,
    ensures
        is_git_url(url) <==> {
            let n = url.len() as int;
            &&& n >= 4
            &&& url[n - 4] == '.'
            &&& url[n - 3] == 'g' || url[n - 3] == 'G'
            &&& url[n - 2] == 'i' || url[n - 2] == 'I'
            &&& url[n - 1] == 't' || url[n - 1] == 'T'
        },
{
    reveal_strlit(".git");
    let lower = text::lowered(url);
    let n = url.len() as int;
    if n >= 4 {
        let tail = lower.subrange(n - 4, n);
        assert(tail[0] == text::lower_char(url[n - 4]));
        assert(tail[1] == text::lower_char(url[n - 3]));
        assert(tail[2] == text::lower_char(url[n - 2]));
        assert(tail[3] == text::lower_char(url[n - 1]));
        assert(tail == ".git"@ <==> tail[0] == '.' && tail[1] == 'g' && tail[2] == 'i' && tail[3]
            == 't') by {
            if tail[0] == '.' && tail[1] == 'g' && tail[2] == 'i' && tail[3] == 't' {
                assert(tail =~= ".git"@);
            }
        }
    }
}

proof fn lemma_untrimmed(front: Seq<char>, tail: Seq<char>)
    requires
        front.len() > 0,
        tail.len() > 0,
        !text::is_white(front[0]),
        !text::is_white(tail.last()),
    ensures
        text::trimmed(front + tail) == front + tail,
        text::lowered(front + tail).skip(front.len() as int) == text::lowered(tail),
        text::lowered(front + tail).len() == front.len() + tail.len(),
{
    let s = front + tail;
    assert(s[0] == front[0] && s.last() == tail.last());
    text::trimming_cuts_white_space_alone(s);
    assert(text::lowered(s).skip(front.len() as int) =~= text::lowered(tail));
}

/// A URL that ends in `.zip`, in small or capital letters, names an archive.
pub proof fn archive_urls_end_in_zip(front: Seq<char>, tail: Seq<char>)
    requires
        front.len() > 0,
        !text::is_white(front[0]),
        tail.len() == 4,
        tail[0] == '.',
        tail[1] == 'z' || tail[1] == 'Z',
        tail[2] == 'i' || tail[2] == 'I',
        tail[3] == 'p' || tail[3] == 'P',
    ensures
        is_archive_url(front + tail),
{
    reveal_strlit(".zip");
    lemma_untrimmed(front, tail);
    assert(text::lowered(tail) =~= ".zip"@);
    let lower = text::lowered(front + tail);
    assert(lower.subrange(lower.len() - 4, lower.len() as int) =~= lower.skip(front.len() as int));
}

/// So does one in which a query follows `.zip`.
pub proof fn archive_urls_may_have_a_query(front: Seq<char>, query: Seq<char>)
    requires
        front.len() > 0,
        !text::is_white(front[0]),
        query.len() == 0 || !text::is_white(query.last()),
    ensures
        is_archive_url(front + (".zip?"@ + query)),
{
    reveal_strlit(".zip?");
    let tail = ".zip?"@ + query;
    assert(query.len() == 0 ==> tail.last() == '?');
    assert(query.len() > 0 ==> tail.last() == query.last());
    lemma_untrimmed(front, tail);
    let lower = text::lowered(front + tail);
    let n = front.len() as int;
    assert(lower.skip(n).take(5) =~= ".zip?"@);
    assert(lower.subrange(n, n + 5) =~= lower.skip(n).take(5));
    assert(text::occurs_at(lower, ".zip?"@, n));
}

/// A URL without `.zip` in it, in whatever letters, names no archive.
pub proof fn other_urls_name_no_archive(url: Seq<char>)
    requires
        !text::has_text(text::lowered(url), ".zip"@),
        text::trimmed(url) == url,
    ensures
        !is_archive_url(url),
{
    reveal_strlit(".zip");
    reveal_strlit(".zip?");
    let lower = text::lowered(url);
    if ".zip"@.is_suffix_of(lower) {
        let i = lower.len() - 4;
        assert(lower.subrange(i, i + 4) == ".zip"@);
        assert(text::occurs_at(lower, ".zip"@, i));
    }
    if text::has_text(lower, ".zip?"@) {
        let i = choose|i: int| text::occurs_at(lower, ".zip?"@, i);
        assert(lower.subrange(i, i + 4) =~= lower.subrange(i, i + 5).take(4));
        assert(".zip?"@.take(4) =~= ".zip"@);
        assert(text::occurs_at(lower, ".zip"@, i));
    }
}

/// Adding is refused for a blank name, for a name that the project has already and
/// for a blank URL, in this order, before anything is fetched.
pub proof fn additions_are_checked_first(
    name: Seq<char>,
    url: Option<Seq<char>>,
    taken: bool,
    base: Option<Seq<char>>,
    replies: AddReplies,
)
    ensures
        text::trimmed(name).len() == 0 ==> add_step(
            name,
            url,
            ProjectState::Known { taken },
            base,
            replies,
        ) == AddView::Failed("dependency name cannot be empty"@),
        text::trimmed(name).len() > 0 ==> add_step(name, url, ProjectState::Unknown, base, replies)
            == AddView::LoadConfig("cook.toml"@),
        text::trimmed(name).len() > 0 && taken ==> add_step(
            name,
            url,
            ProjectState::Known { taken },
            base,
            replies,
        ) == AddView::Failed("dependency '"@ + name + "' already exists in cook.toml"@),
        text::trimmed(name).len() > 0 && !taken && url is Some && text::trimmed(url->0).len() == 0
            ==> add_step(name, url, ProjectState::Known { taken }, base, replies)
            == AddView::Failed("dependency source URL cannot be empty"@),
{
}

/// A repository is added with its URL at the revision that is given for it, or else
/// at the one that git names for its head.
pub proof fn repositories_are_pinned(
    name: Seq<char>,
    detail: config::DetailView,
    url: Seq<char>,
    replies: AddReplies,
)
    requires
        detail.git == Some(url),
        is_git_url(url),
    ensures
        detail.rev matches Some(rev) ==> add_from_source(name, detail, replies) == (
        AddView::Added { detail, message: "dependency '"@ + name + "' added at rev "@ + rev }),
        detail.rev is None && replies.head is None ==> add_from_source(name, detail, replies)
            == AddView::ReadHead(seq!["ls-remote"@, url, "HEAD"@]),
        add_from_source(name, detail, replies) matches AddView::Added { detail: added, .. } ==> {
            &&& added == (config::DetailView { rev: added.rev, ..detail })
            &&& added.rev is Some
            &&& detail.rev is None ==> (replies.head matches Some(
                ProgramOutcome::Ended { success: true, output, .. },
            ) && text::words(output@).len() > 0 && added.rev == Some(text::words(output@)[0])
                && vstd::utf8::encode_utf8(added.rev->0).len() >= 8)
        },
        detail.rev is None ==> (replies.head matches Some(
            ProgramOutcome::Ended { success: false, .. },
        ) ==> add_from_source(name, detail, replies) is Failed),
{
}

/// Anything but a repository is downloaded from its URL, if that names an archive,
/// and unpacked into the directory of its name in `.cook/deps`, from which it is then
/// used. What is known of how to build it is kept.
pub proof fn archives_are_unpacked_and_used(
    name: Seq<char>,
    detail: config::DetailView,
    url: Seq<char>,
    replies: AddReplies,
)
    requires
        detail.git == Some(url),
        !is_git_url(url),
    ensures
        !is_archive_url(url) ==> add_from_source(name, detail, replies) is Failed,
        is_archive_url(url) && replies.archive is None ==> add_from_source(name, detail, replies)
            == AddView::Download(url),
        ({
            let destination = paths::path_join(
                replies.windows,
                paths::path_join(replies.windows, ".cook"@, "deps"@),
                name,
            );
            &&& add_from_source(name, detail, replies) matches AddView::Unpack {
                destination: to,
                steps,
            } ==> to == destination && (replies.archive matches Some(Ok(bytes)) && steps
                == archive::unpacking(replies.windows, bytes@, destination))
            &&& add_from_source(name, detail, replies) matches AddView::Added {
                detail: added,
                message,
            } ==> {
                &&& replies.unpacked == Some(Ok::<bool, Failure>(true))
                &&& added.path == Some(paths::normalized(destination))
                &&& added.git is None && added.rev is None && added.branch is None && added.tag
                    is None
                &&& added.build == detail.build
                &&& added.export == detail.export
                &&& added.build_system == detail.build_system
                &&& added.registry_name == detail.registry_name
                &&& added.registry_version == detail.registry_version
                &&& added.source_sha256 == detail.source_sha256
                &&& added.strip_prefix == detail.strip_prefix
                &&& added.public == detail.public
                &&& added.abi == detail.abi
                &&& message == "dependency '"@ + name + "' added from archive source "@ + url
            }
        }),
{
}

/// With a URL the dependency comes from there, and the cookbook is not asked; without
/// one it comes from the cookbook, which the user is told first.
pub proof fn sources_come_from_the_user_or_the_cookbook(
    name: Seq<char>,
    url: Option<Seq<char>>,
    base: Option<Seq<char>>,
    replies: AddReplies,
)
    ensures
        url is Some && text::trimmed(url->0).len() > 0 ==> add_new(
            name,
            url,
            base,
            replies,
        ) == add_from_source(
            name,
            config::DetailView { git: url, ..config::empty_detail() },
            replies,
        ),
        url is None && replies.recipe is None ==> {
            ||| add_new(name, url, base, replies) is FetchRecipe
            ||| add_new(name, url, base, replies) is Failed
        },
        url is None && !replies.told ==> (registry::lookup_step(name, None, base, replies.recipe)
            matches registry::StepView::Found { dependency_name, .. } ==> add_new(
            name,
            url,
            base,
            replies,
        ) == AddView::Tell(
            "package '"@ + name + "' resolved from cookbook as '"@ + dependency_name + "'"@,
        )),
        url is None && replies.told ==> (registry::lookup_step(name, None, base, replies.recipe)
            matches registry::StepView::Found { detail, .. } ==> add_new(name, url, base, replies)
            == add_from_source(name, detail, replies)),
{
}

/// A reply is an archive exactly if its status is a success; a missing archive is told
/// from other trouble.
pub proof fn only_success_is_an_archive(url: Seq<char>, code: u16, shown: Seq<char>)
    ensures
        archive_reply(url, code, shown) is None <==> 200 <= code <= 299,
        code == 404 ==> archive_reply(url, code, shown) == Some(
            "dependency archive was not found: "@ + url,
        ),
        code >= 300 && code != 404 ==> archive_reply(url, code, shown) == Some(
            "failed to download dependency archive "@ + url + ": HTTP "@ + shown,
        ),
{
}

/// White space around a URL does not change what it names.
pub proof fn blanks_do_not_change_the_source(a: Seq<char>, b: Seq<char>)
    requires
        text::trimmed(a) == text::trimmed(b),
    ensures
        is_git_url(a) == is_git_url(b),
        is_archive_url(a) == is_archive_url(b),
{
}

// ---------------------------------------------------------------------------
// Functions
// ---------------------------------------------------------------------------

impl AddReplies {
    /// Nothing is known yet but whether paths follow the rules of Windows.
    pub fn new(windows: bool) -> (r: Self)
        ensures
            r.windows == windows,
            r.recipe is None,
            !r.told,
            r.head is None,
            r.archive is None,
            r.unpacked is None,
    {
        AddReplies {
            windows,
            recipe: None,
            told: false,
            head: None,
            archive: None,
            unpacked: None,
        }
    }
}

/// Whether a URL is that of a git repository.
pub fn is_direct_git_repo_url(source_url: &str) -> (r: bool)
    ensures
        r == is_git_url(source_url@),
{
    text::ends_with(text::to_lower(text::trim(source_url).as_str()).as_str(), ".git")
}

/// Whether a URL is that of a zip archive.
pub fn looks_like_archive_url(source_url: &str) -> (r: bool)
    ensures
        r == is_archive_url(source_url@),
{
    let lower = text::to_lower(text::trim(source_url).as_str());
    text::ends_with(lower.as_str(), ".zip") || text::contains(lower.as_str(), ".zip?")
}

/// The revision that git names for the head of a repository.
pub fn resolve_remote_head_rev(url: &str, outcome: &ProgramOutcome) -> (r: Result<String, Failure>)
    ensures
        match head_revision(url@, *outcome) {
            Ok(rev) => r is Ok && r->Ok_0@ == rev,
            Err(message) => r is Err && r->Err_0@ == message,
        },
{
    match outcome {
        ProgramOutcome::NotStarted(_) => {
            let mut message = "failed to run git ls-remote for '".to_owned();
            message.append(url);
            message.append("'");
            Err(Failure::new(message))
        },
        ProgramOutcome::Ended { success, status, output } => {
            if !*success {
                let mut message = "git ls-remote failed for '".to_owned();
                message.append(url);
                message.append("': status ");
                message.append(status.as_str());
                return Err(Failure::new(message));
            }
            let words = text::split_words(output.as_str());
            assert(words@.len() == text::words(output@).len());
            if words.len() == 0 {
                return Err(Failure::new("git ls-remote returned empty output".to_owned()));
            }
            assert(text::texts(words@)[0] == words@[0]@);
            let rev = words[0].as_str();
            if rev.as_bytes().len() < 8 {
                let mut message = "resolved revision is invalid: ".to_owned();
                message.append(rev);
                return Err(Failure::new(message));
            }
            Ok(rev.to_owned())
        },
    }
}

/// Whether the reply to a request for an archive is one; `code` is its status and
/// `shown` the status as text.
pub fn check_archive_reply(url: &str, code: u16, shown: &str) -> (r: Result<(), Failure>)
    ensures
        match archive_reply(url@, code, shown@) {
            None => r is Ok,
            Some(message) => r is Err && r->Err_0@ == message,
        },
{
    if code == 404 {
        let mut message = "dependency archive was not found: ".to_owned();
        message.append(url);
        Err(Failure::new(message))
    } else if code < 200 || code >= 300 {
        let mut message = "failed to download dependency archive ".to_owned();
        message.append(url);
        message.append(": HTTP ");
        message.append(shown);
        Err(Failure::new(message))
    } else {
        Ok(())
    }
}

/// What to do about a dependency that comes as an archive.
#[derive(Debug)]
pub enum ArchiveStep {
    Download(String),
    Unpack { destination: String, steps: Result<Vec<ExtractStep>, Failure> },
    Stored(String),
    Failed(Failure),
}

/// The model of the steps of unpacking.
pub open spec fn planned_steps(steps: Result<Vec<ExtractStep>, Failure>) -> Result<
    Seq<archive::ExtractView>,
    Seq<char>,
> {
    match steps {
        Ok(list) => Ok(archive::extract_views(list@)),
        Err(failure) => Err(failure@),
    }
}

impl View for ArchiveStep {
    type V = ArchiveView;

    open spec fn view(&self) -> ArchiveView {
        match self {
            ArchiveStep::Download(url) => ArchiveView::Download(url@),
            ArchiveStep::Unpack { destination, steps } => ArchiveView::Unpack {
                destination: destination@,
                steps: planned_steps(*steps),
            },
            ArchiveStep::Stored(path) => ArchiveView::Stored(path@),
            ArchiveStep::Failed(failure) => ArchiveView::Failed(failure@),
        }
    }
}

/// What to do next about a dependency that comes as an archive.
pub fn materialize_archive_dependency(name: &str, source_url: &str, replies: &AddReplies) -> (r:
    ArchiveStep)
    ensures
        r@ == archive_step(name@, source_url@, *replies),
{
    if !looks_like_archive_url(source_url) {
        let mut message = "dependency source '".to_owned();
        message.append(source_url);
        message.append(
            "' is not a direct '.git' URL and does not look like a downloadable '.zip' URL",
        );
        return ArchiveStep::Failed(Failure::new(message));
    }
    let windows = replies.windows;
    let destination = paths::join(windows, paths::join(windows, ".cook", "deps").as_str(), name);
    match &replies.archive {
        None => ArchiveStep::Download(source_url.to_owned()),
        Some(Err(failure)) => ArchiveStep::Failed(failure.copied()),
        Some(Ok(bytes)) => match &replies.unpacked {
            None => {
                let copy = bytes.clone();
                assert(copy@ =~= bytes@);
                let steps = archive::extract_zip_archive(copy, destination.as_str(), windows);
                ArchiveStep::Unpack { destination, steps }
            },
            Some(Err(failure)) => ArchiveStep::Failed(failure.copied()),
            Some(Ok(done)) => if *done {
                ArchiveStep::Stored(paths::normalize_path(destination.as_str()))
            } else {
                let mut message = "failed to extract archive '".to_owned();
                message.append(source_url);
                message.append("'");
                ArchiveStep::Failed(Failure::new(message))
            },
        },
    }
}

/// A step that is not the last one, or a failure.
pub open spec fn is_step(step: AddStep, view: AddView) -> bool {
    match (step, view) {
        (AddStep::LoadConfig(path), AddView::LoadConfig(want)) => path@ == want,
        (AddStep::Tell(message), AddView::Tell(want)) => message@ == want,
        (AddStep::FetchRecipe(url), AddView::FetchRecipe(want)) => url@ == want,
        (AddStep::ReadHead(args), AddView::ReadHead(want)) => text::texts(args@) == want,
        (AddStep::Download(url), AddView::Download(want)) => url@ == want,
        (AddStep::Unpack { destination, steps }, AddView::Unpack { destination: d, steps: s }) => {
            destination@ == d && planned_steps(steps) == s
        },
        (AddStep::Finished(Err(failure)), AddView::Failed(message)) => failure@ == message,
        _ => false,
    }
}

/// `after` is the project `before` with the dependency `name` added.
pub open spec fn is_added(
    before: CookConfig,
    after: CookConfig,
    name: Seq<char>,
    detail: config::DetailView,
) -> bool {
    &&& after.project == before.project
    &&& after.build == before.build
    &&& after.resolver == before.resolver
    &&& ordered_map::keys_increase(after.dependencies@)
    &&& exists|new: DependencyDetail|
        #![trigger new@]
        new@ == detail && ordered_map::map_of(after.dependencies@) == ordered_map::map_of(
            before.dependencies@,
        ).insert(name, DependencySpec::Detailed(Box::new(new)))
}

/// What becomes of a request to add a dependency.
pub open spec fn is_add_result(
    before: CookConfig,
    after: CookConfig,
    name: Seq<char>,
    step: AddStep,
    view: AddView,
) -> bool {
    match view {
        AddView::Added { detail, message } => {
            &&& step matches AddStep::Finished(Ok(told)) && told@ == message
            &&& is_added(before, after, name, detail)
        },
        _ => after == before && is_step(step, view),
    }
}

fn add_known_source(
    cfg: &mut CookConfig,
    name: &str,
    detail: DependencyDetail,
    replies: &AddReplies,
) -> (r: AddStep)
    ensures
        is_add_result(
            *old(cfg),
            *final(cfg),
            name@,
            r,
            add_from_source(name@, detail@, *replies),
        ),
{
    let ghost given = detail@;
    let mut detail = detail;
    let url = match &detail.git {
        Some(url) => url.clone(),
        None => {
            return AddStep::Finished(
                Err(Failure::new("dependency source URL is missing".to_owned())),
            );
        },
    };
    let mut message = "dependency '".to_owned();
    message.append(name);
    if is_direct_git_repo_url(url.as_str()) {
        let rev = match &detail.rev {
            Some(rev) => rev.clone(),
            None => match &replies.head {
                None => {
                    let mut args: Vec<String> = Vec::new();
                    text::push_text(&mut args, "ls-remote");
                    text::push_text(&mut args, url.as_str());
                    text::push_text(&mut args, "HEAD");
                    assert(text::texts(args@) =~= head_words(url@));
                    return AddStep::ReadHead(args);
                },
                Some(outcome) => match resolve_remote_head_rev(url.as_str(), outcome) {
                    Ok(rev) => rev,
                    Err(failure) => {
                        return AddStep::Finished(Err(failure));
                    },
                },
            },
        };
        message.append("' added at rev ");
        message.append(rev.as_str());
        detail.rev = Some(rev);
    } else {
        let path = match materialize_archive_dependency(name, url.as_str(), replies) {
            ArchiveStep::Download(url) => {
                return AddStep::Download(url);
            },
            ArchiveStep::Unpack { destination, steps } => {
                return AddStep::Unpack { destination, steps };
            },
            ArchiveStep::Failed(failure) => {
                return AddStep::Finished(Err(failure));
            },
            ArchiveStep::Stored(path) => path,
        };
        message.append("' added from archive source ");
        message.append(url.as_str());
        detail.path = Some(path);
        detail.git = None;
        detail.rev = None;
        detail.branch = None;
        detail.tag = None;
    }
    let ghost new = detail;
    assert(new@ == add_from_source(name@, given, *replies)->Added_detail);
    cfg.dependencies.insert(name.to_owned(), DependencySpec::Detailed(Box::new(detail)));
    AddStep::Finished(Ok(message))
}

fn add_new_dependency(
    name: &str,
    url: Option<&str>,
    cfg: &mut CookConfig,
    base: Option<&str>,
    replies: &AddReplies,
) -> (r: AddStep)
    ensures
        is_add_result(
            *old(cfg),
            *final(cfg),
            name@,
            r,
            add_new(
                name@,
                match url {
                    Some(u) => Some(u@),
                    None => None,
                },
                match base {
                    Some(b) => Some(b@),
                    None => None,
                },
                *replies,
            ),
        ),
{
    if let Some(explicit) = url {
        if text::blank(explicit) {
            return AddStep::Finished(
                Err(Failure::new("dependency source URL cannot be empty".to_owned())),
            );
        }
        let mut detail = DependencyDetail::default();
        detail.git = Some(explicit.to_owned());
        return add_known_source(cfg, name, detail, replies);
    }
    let fetched = match &replies.recipe {
        Some(found) => Some(found),
        None => None,
    };
    match registry::resolve_package_from_cookbook(name, None, base, fetched) {
        RegistryStep::Fetch(recipe_url) => AddStep::FetchRecipe(recipe_url),
        RegistryStep::Finished(Err(failure)) => AddStep::Finished(Err(failure)),
        RegistryStep::Finished(Ok(found)) => {
            if !replies.told {
                let mut note = "package '".to_owned();
                note.append(name);
                note.append("' resolved from cookbook as '");
                note.append(found.dependency_name.as_str());
                note.append("'");
                return AddStep::Tell(note);
            }
            add_known_source(cfg, name, found.detail, replies)
        },
    }
}

/// What is known of a project, as it was read.
pub open spec fn project_state(
    read: Option<Result<CookConfig, Failure>>,
    name: Seq<char>,
) -> ProjectState {
    match read {
        None => ProjectState::Unknown,
        Some(Err(failure)) => ProjectState::Broken(failure@),
        Some(Ok(cfg)) => ProjectState::Known {
            taken: ordered_map::has_key(cfg.dependencies@, name),
        },
    }
}

/// What becomes of the project as it was read.
pub open spec fn is_add_outcome(
    before: Option<Result<CookConfig, Failure>>,
    after: Option<Result<CookConfig, Failure>>,
    name: Seq<char>,
    step: AddStep,
    view: AddView,
) -> bool {
    match before {
        Some(Ok(cfg)) => after matches Some(Ok(new)) && is_add_result(cfg, new, name, step, view),
        _ => after == before && is_step(step, view),
    }
}

/// Adds a dependency to the project, or says what to do next for it. `read` is
/// what was read of the manifest; `base` is where the user says that the recipes
/// of the cookbook are.
pub fn add_dependency(
    name: &str,
    url: Option<&str>,
    read: &mut Option<Result<CookConfig, Failure>>,
    base: Option<&str>,
    replies: &AddReplies,
) -> (r: AddStep)
    ensures
        is_add_outcome(
            *old(read),
            *final(read),
            name@,
            r,
            add_step(
                name@,
                match url {
                    Some(u) => Some(u@),
                    None => None,
                },
                project_state(*old(read), name@),
                match base {
                    Some(b) => Some(b@),
                    None => None,
                },
                *replies,
            ),
        ),
{
    if text::blank(name) {
        return AddStep::Finished(
            Err(Failure::new("dependency name cannot be empty".to_owned())),
        );
    }
    match read {
        None => AddStep::LoadConfig("cook.toml".to_owned()),
        Some(Err(failure)) => AddStep::Finished(Err(failure.copied())),
        Some(Ok(cfg)) => {
            if cfg.dependencies.contains_key(name) {
                let mut message = "dependency '".to_owned();
                message.append(name);
                message.append("' already exists in cook.toml");
                return AddStep::Finished(Err(Failure::new(message)));
            }
            add_new_dependency(name, url, cfg, base, replies)
        },
    }
}

}
