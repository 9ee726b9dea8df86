//! Bringing a git repository to a given revision, step by step.
//!
//! [`materialize_git_dependency`] looks at what has been done so far and says
//! what to do next. The caller does it, notes the reply and asks again.
use vstd::prelude::*;
use vstd::string::*;

use crate::failure::Failure;
use crate::findings;
use crate::findings::CheckoutRequest;
use crate::paths;
use crate::programs::ProgramOutcome;
use crate::text;

verus! {

broadcast use vstd::string::group_string_axioms;

/// What is known of a checkout so far.
#[derive(Debug)]
pub struct CheckoutReplies {
    pub directory_present: Option<bool>,
    pub parent_created: Option<Result<(), Failure>>,
    pub obtained: Vec<ProgramOutcome>,
    pub repository_present: Option<bool>,
    pub switched: Option<ProgramOutcome>,
    pub head: Option<ProgramOutcome>,
    pub tagged: Option<ProgramOutcome>,
}

/// What to do next for a checkout.
#[derive(Debug)]
pub enum CheckoutStep {
    /// See whether the directory is there.
    LookForDirectory(String),
    /// Create the directory that the checkout goes into.
    CreateParent(String),
    /// Run git to clone (`repo` is none) or to fetch.
    Obtain { repo: Option<String>, args: Vec<String> },
    /// See whether the directory holds a repository.
    LookForRepository(String),
    /// Run git in the directory to switch to the revision.
    Switch(Vec<String>),
    /// Run git in the directory to learn its revision.
    ReadHead(Vec<String>),
    /// Run git in the directory to learn the revision of the tag.
    ReadTag(Vec<String>),
    /// The revision at which the checkout stands, or why there is none.
    Finished(Result<String, Failure>),
}

// ---------------------------------------------------------------------------
// Model
// ---------------------------------------------------------------------------

/// The model of a [`CheckoutStep`].
#[verifier::ext_equal]
pub enum StepView {
    LookForDirectory(Seq<char>),
    CreateParent(Seq<char>),
    Obtain { repo: Option<Seq<char>>, args: Seq<Seq<char>> },
    LookForRepository(Seq<char>),
    Switch(Seq<Seq<char>>),
    ReadHead(Seq<Seq<char>>),
    ReadTag(Seq<Seq<char>>),
    Resolved(Seq<char>),
    Failed(Seq<char>),
}

impl View for CheckoutStep {
    type V = StepView;

    open spec fn view(&self) -> StepView {
        match self {
            CheckoutStep::LookForDirectory(path) => StepView::LookForDirectory(path@),
            CheckoutStep::CreateParent(path) => StepView::CreateParent(path@),
            CheckoutStep::Obtain { repo, args } => StepView::Obtain {
                repo: text::opt_text(*repo),
                args: text::texts(args@),
            },
            CheckoutStep::LookForRepository(path) => StepView::LookForRepository(path@),
            CheckoutStep::Switch(args) => StepView::Switch(text::texts(args@)),
            CheckoutStep::ReadHead(args) => StepView::ReadHead(text::texts(args@)),
            CheckoutStep::ReadTag(args) => StepView::ReadTag(text::texts(args@)),
            CheckoutStep::Finished(Ok(rev)) => StepView::Resolved(rev@),
            CheckoutStep::Finished(Err(failure)) => StepView::Failed(failure@),
        }
    }
}

/// How often cloning and fetching are tried.
pub const OBTAIN_ATTEMPTS: usize = 2;

/// The arguments by which a repository is cloned.
pub open spec fn clone_words(want: findings::CheckoutView) -> Seq<Seq<char>> {
    match want.branch {
        Some(branch) => seq!["clone"@, want.url, "--branch"@, branch, want.dir],
        None => seq!["clone"@, want.url, want.dir],
    }
}

/// The arguments by which a repository is brought up to date.
pub open spec fn fetch_words() -> Seq<Seq<char>> {
    seq!["fetch"@, "--all"@, "--tags"@]
}

/// The arguments by which a repository is switched to a revision.
pub open spec fn switch_words(want: findings::CheckoutView) -> Seq<Seq<char>> {
    seq!["checkout"@, "--force"@, want.rev]
}

/// The arguments by which a repository tells its revision.
pub open spec fn head_words() -> Seq<Seq<char>> {
    seq!["rev-parse"@, "HEAD"@]
}

/// The arguments by which a repository tells the revision of a tag.
pub open spec fn tag_words(tag: Seq<char>) -> Seq<Seq<char>> {
    seq!["rev-list"@, "-n"@, "1"@, tag]
}

/// A call of git as it is shown.
pub open spec fn shown_call(repo: Option<Seq<char>>, args: Seq<Seq<char>>) -> Seq<char> {
    match repo {
        Some(dir) => "git -C "@ + dir + " "@ + text::joined(args, " "@),
        None => "git "@ + text::joined(args, " "@),
    }
}

/// The complaint about a call of git that ended badly.
pub open spec fn ended_badly(
    repo: Option<Seq<char>>,
    args: Seq<Seq<char>>,
    status: Seq<char>,
) -> Seq<char> {
    shown_call(repo, args) + " failed with status "@ + status
}

/// What one try to clone or fetch came to: nothing on success.
pub open spec fn obtain_complaint(
    repo: Option<Seq<char>>,
    args: Seq<Seq<char>>,
    outcome: ProgramOutcome,
) -> Option<Seq<char>> {
    match outcome {
        ProgramOutcome::NotStarted(reason) => Some(reason@),
        ProgramOutcome::Ended { success, status, output } => if success {
            None
        } else {
            Some(ended_badly(repo, args, status@))
        },
    }
}

/// What a call in the repository came to: nothing on success.
pub open spec fn run_complaint(
    dir: Seq<char>,
    args: Seq<Seq<char>>,
    outcome: ProgramOutcome,
) -> Option<Seq<char>> {
    match outcome {
        ProgramOutcome::NotStarted(reason) => Some("failed to run "@ + shown_call(Some(dir), args)),
        ProgramOutcome::Ended { success, status, output } => if success {
            None
        } else {
            Some(ended_badly(Some(dir), args, status@))
        },
    }
}

/// What a call in the repository wrote, or the complaint about it.
pub open spec fn captured(
    dir: Seq<char>,
    args: Seq<Seq<char>>,
    outcome: ProgramOutcome,
) -> Result<Seq<char>, Seq<char>> {
    match run_complaint(dir, args, outcome) {
        Some(message) => Err(message),
        None => {
            let said = text::trimmed(outcome->output@);
            if said.len() == 0 {
                Err("git command produced empty output: "@ + shown_call(Some(dir), args))
            } else {
                Ok(said)
            }
        },
    }
}

/// What to do about cloning or fetching with the given arguments: nothing once a
/// try succeeded.
pub open spec fn obtain_step(
    repo: Option<Seq<char>>,
    args: Seq<Seq<char>>,
    tries: Seq<ProgramOutcome>,
) -> Option<StepView> {
    if tries.len() == 0 {
        Some(StepView::Obtain { repo, args })
    } else {
        match obtain_complaint(repo, args, tries.last()) {
            None => None,
            Some(message) => if tries.len() < OBTAIN_ATTEMPTS {
                Some(StepView::Obtain { repo, args })
            } else {
                Some(StepView::Failed(message))
            },
        }
    }
}

/// What to do about the working copy: nothing once it is up to date.
pub open spec fn copy_step(
    want: findings::CheckoutView,
    replies: CheckoutReplies,
) -> Option<StepView> {
    match replies.directory_present {
        None => Some(StepView::LookForDirectory(want.dir)),
        Some(true) => if want.offline {
            None
        } else {
            obtain_step(Some(want.dir), fetch_words(), replies.obtained@)
        },
        Some(false) => if want.offline {
            Some(
                StepView::Failed(
                    "offline mode is enabled and dependency checkout is missing: "@ + want.dir,
                ),
            )
        } else {
            match (paths::parent(want.windows, want.dir), replies.parent_created) {
                (Some(parent), None) => Some(StepView::CreateParent(parent)),
                (Some(parent), Some(Err(failure))) => Some(StepView::Failed(failure@)),
                _ => obtain_step(None, clone_words(want), replies.obtained@),
            }
        },
    }
}

/// What to do about the revision of a working copy that is up to date.
pub open spec fn revision_step(
    want: findings::CheckoutView,
    replies: CheckoutReplies,
) -> StepView {
    match replies.repository_present {
        None => StepView::LookForRepository(paths::path_join(want.windows, want.dir, ".git"@)),
        Some(false) => StepView::Failed(
            "dependency checkout is not a git repository: "@ + want.dir,
        ),
        Some(true) => match replies.switched {
            None => StepView::Switch(switch_words(want)),
            Some(switched) => match run_complaint(want.dir, switch_words(want), switched) {
                Some(message) => StepView::Failed(message),
                None => match replies.head {
                    None => StepView::ReadHead(head_words()),
                    Some(head) => match captured(want.dir, head_words(), head) {
                        Err(message) => StepView::Failed(message),
                        Ok(resolved) => tag_step(want, replies, resolved),
                    },
                },
            },
        },
    }
}

/// What to do when the working copy stands at `resolved`.
pub open spec fn tag_step(
    want: findings::CheckoutView,
    replies: CheckoutReplies,
    resolved: Seq<char>,
) -> StepView {
    if !want.rev.is_prefix_of(resolved) {
        StepView::Failed(
            "git checkout verification failed for "@ + want.dir + ": requested "@ + want.rev
                + ", got "@ + resolved,
        )
    } else {
        match want.tag {
            None => StepView::Resolved(resolved),
            Some(tag) => match replies.tagged {
                None => StepView::ReadTag(tag_words(tag)),
                Some(tagged) => match captured(want.dir, tag_words(tag), tagged) {
                    Err(message) => StepView::Failed(message),
                    Ok(tag_rev) => if tag_rev == resolved {
                        StepView::Resolved(resolved)
                    } else {
                        StepView::Failed(
                            "tag '"@ + tag + "' does not match resolved revision '"@ + resolved
                                + "' for "@ + want.dir,
                        )
                    },
                },
            },
        }
    }
}

/// What to do next for a checkout.
pub open spec fn next_step(want: findings::CheckoutView, replies: CheckoutReplies) -> StepView {
    match copy_step(want, replies) {
        Some(step) => step,
        None => revision_step(want, replies),
    }
}

// ---------------------------------------------------------------------------
// Laws
// ---------------------------------------------------------------------------

/// A checkout ends at a revision that begins with the one that was asked for,
/// and where a tag was named, git gave the same revision for the tag.
pub proof fn resolved_revision_was_requested(
    want: findings::CheckoutView,
    replies: CheckoutReplies,
    rev: Seq<char>,
)
    requires
        next_step(want, replies) == StepView::Resolved(rev),
    ensures
        want.rev.is_prefix_of(rev),
        want.tag matches Some(tag) ==> replies.tagged is Some && captured(
            want.dir,
            tag_words(tag),
            replies.tagged->0,
        ) == Ok::<Seq<char>, Seq<char>>(rev),
{
}

/// Without the network nothing is cloned or fetched.
pub proof fn offline_never_obtains(want: findings::CheckoutView, replies: CheckoutReplies)
    requires
        want.offline,
    ensures
        !(next_step(want, replies) is Obtain),
        !(next_step(want, replies) is CreateParent),
{
}

/// Cloning or fetching is not tried again once the tries are used up.
pub proof fn obtaining_is_bounded(want: findings::CheckoutView, replies: CheckoutReplies)
    requires
        replies.obtained@.len() >= OBTAIN_ATTEMPTS,
    ensures
        !(next_step(want, replies) is Obtain),
{
}

/// A clone goes from the requested URL into the directory of the request, the one
/// in which the repository is looked for afterwards, and names a branch exactly if
/// one is requested. It is made only where there is no directory yet.
pub proof fn clone_goes_where_it_is_looked_for(
    want: findings::CheckoutView,
    replies: CheckoutReplies,
)
    ensures
        next_step(want, replies) matches StepView::Obtain { repo: None, args } ==> {
            &&& !want.offline
            &&& replies.directory_present == Some(false)
            &&& args.len() >= 3
            &&& args[0] == "clone"@
            &&& args[1] == want.url
            &&& args.last() == want.dir
            &&& want.branch is None ==> args.len() == 3
            &&& want.branch matches Some(branch) ==> args.len() == 5 && args[2] == "--branch"@
                && args[3] == branch
        },
        next_step(want, replies) matches StepView::LookForDirectory(path) ==> path == want.dir,
        next_step(want, replies) matches StepView::LookForRepository(path) ==> path
            == paths::path_join(want.windows, want.dir, ".git"@),
        next_step(want, replies) matches StepView::CreateParent(path) ==> paths::parent(
            want.windows,
            want.dir,
        ) == Some(path),
{
}

/// What is there already is brought up to date with all branches and tags, in the
/// directory of the request.
pub proof fn fetch_updates_what_is_there(want: findings::CheckoutView, replies: CheckoutReplies)
    ensures
        next_step(want, replies) matches StepView::Obtain { repo: Some(dir), args } ==> {
            &&& !want.offline
            &&& replies.directory_present == Some(true)
            &&& dir == want.dir
            &&& args.len() == 3
            &&& args[0] == "fetch"@
            &&& args[1] == "--all"@
            &&& args[2] == "--tags"@
        },
{
}

/// A working copy is switched to the requested revision by force, and its revision
/// and that of the requested tag are read from git.
pub proof fn copy_is_switched_to_the_request(
    want: findings::CheckoutView,
    replies: CheckoutReplies,
)
    ensures
        next_step(want, replies) matches StepView::Switch(args) ==> replies.repository_present
            == Some(true) && args.len() == 3 && args[0] == "checkout"@ && args[1] == "--force"@
            && args[2] == want.rev,
        next_step(want, replies) matches StepView::ReadHead(args) ==> args.len() == 2 && args[0]
            == "rev-parse"@ && args[1] == "HEAD"@,
        next_step(want, replies) matches StepView::ReadTag(args) ==> want.tag is Some && args.len()
            == 4 && args[0] == "rev-list"@ && args[1] == "-n"@ && args[2] == "1"@ && args[3]
            == want.tag->0,
{
}

/// The revision that a checkout ends at is what git said of its head, without the
/// white space around it, after a switch that succeeded in a repository; it begins
/// with the requested one, and is what git said of the requested tag. Online, the
/// last clone or fetch succeeded before that.
pub proof fn resolved_revision_is_what_git_said(
    want: findings::CheckoutView,
    replies: CheckoutReplies,
    rev: Seq<char>,
)
    requires
        next_step(want, replies) == StepView::Resolved(rev),
    ensures
        replies.directory_present is Some,
        want.offline ==> replies.directory_present == Some(true),
        !want.offline ==> replies.obtained@.len() > 0 && (replies.obtained@.last()
            matches ProgramOutcome::Ended { success: true, .. }),
        replies.repository_present == Some(true),
        replies.switched matches Some(ProgramOutcome::Ended { success: true, .. }),
        replies.head matches Some(ProgramOutcome::Ended { success: true, output, .. }) && rev
            == text::trimmed(output@),
        rev.len() > 0,
        want.rev.is_prefix_of(rev),
        want.tag is Some ==> (replies.tagged matches Some(
            ProgramOutcome::Ended { success: true, output, .. },
        ) && rev == text::trimmed(output@)),
{
}

/// A checkout that has all it needs ends at a revision.
pub proof fn good_replies_are_enough(
    want: findings::CheckoutView,
    replies: CheckoutReplies,
    rev: Seq<char>,
)
    requires
        replies.directory_present == Some(true) || (!want.offline && replies.directory_present
            == Some(false) && (replies.parent_created matches Some(Ok(_)))),
        !want.offline ==> replies.obtained@.len() > 0 && (replies.obtained@.last()
            matches ProgramOutcome::Ended { success: true, .. }),
        replies.repository_present == Some(true),
        replies.switched matches Some(ProgramOutcome::Ended { success: true, .. }),
        replies.head matches Some(ProgramOutcome::Ended { success: true, output, .. }) && rev
            == text::trimmed(output@),
        rev.len() > 0,
        want.rev.is_prefix_of(rev),
        want.tag is Some ==> (replies.tagged matches Some(
            ProgramOutcome::Ended { success: true, output, .. },
        ) && rev == text::trimmed(output@)),
    ensures
        next_step(want, replies) == StepView::Resolved(rev),
{
}

/// A clone or fetch that failed is tried once more, with the same arguments, and
/// then given up.
pub proof fn failed_tries_are_repeated_once(
    want: findings::CheckoutView,
    replies: CheckoutReplies,
    first: CheckoutReplies,
)
    requires
        replies == (CheckoutReplies { obtained: replies.obtained, ..first }),
        first.obtained@.len() == 0,
        next_step(want, first) is Obtain,
        replies.obtained@.len() > 0,
        !(replies.obtained@.last() matches ProgramOutcome::Ended { success: true, .. }),
    ensures
        replies.obtained@.len() == 1 ==> next_step(want, replies) == next_step(want, first),
        replies.obtained@.len() >= 2 ==> next_step(want, replies) is Failed,
{
}

/// A checkout that fails says why: what is missing offline, what is no repository, how
/// git was called and how it ended, or which revisions do not agree.
pub proof fn failures_say_why(want: findings::CheckoutView, replies: CheckoutReplies)
    ensures
        want.offline && replies.directory_present == Some(false) ==> next_step(want, replies)
            == StepView::Failed(
            "offline mode is enabled and dependency checkout is missing: "@ + want.dir,
        ),
        want.offline && replies.directory_present == Some(true) && replies.repository_present
            == Some(false) ==> next_step(want, replies) == StepView::Failed(
            "dependency checkout is not a git repository: "@ + want.dir,
        ),
        want.offline && replies.directory_present == Some(true) && replies.repository_present
            == Some(true) ==> {
            &&& replies.switched is None ==> next_step(want, replies) is Switch
            &&& replies.switched matches Some(
                ProgramOutcome::Ended { success: false, status, .. },
            ) ==> next_step(want, replies) == StepView::Failed(
                "git -C "@ + want.dir + " "@ + text::joined(
                    seq!["checkout"@, "--force"@, want.rev],
                    " "@,
                ) + " failed with status "@ + status@,
            )
            &&& replies.switched matches Some(ProgramOutcome::NotStarted(_)) ==> next_step(
                want,
                replies,
            ) == StepView::Failed(
                "failed to run "@ + ("git -C "@ + want.dir + " "@ + text::joined(
                    seq!["checkout"@, "--force"@, want.rev],
                    " "@,
                )),
            )
            &&& (replies.switched matches Some(ProgramOutcome::Ended { success: true, .. })) && (
            replies.head matches Some(ProgramOutcome::Ended { success: true, .. })) ==> {
                let said = text::trimmed(replies.head->0->output@);
                &&& said.len() > 0 && !want.rev.is_prefix_of(said) ==> next_step(want, replies)
                    == StepView::Failed(
                    "git checkout verification failed for "@ + want.dir + ": requested "@
                        + want.rev + ", got "@ + said,
                )
                &&& said.len() == 0 ==> next_step(want, replies) is Failed
                &&& said.len() > 0 && want.rev.is_prefix_of(said) && want.tag is Some && (
                replies.tagged matches Some(ProgramOutcome::Ended { success: true, .. })) ==> {
                    let tagged = text::trimmed(replies.tagged->0->output@);
                    tagged.len() > 0 && tagged != said ==> next_step(want, replies)
                        == StepView::Failed(
                        "tag '"@ + want.tag->0 + "' does not match resolved revision '"@ + said
                            + "' for "@ + want.dir,
                    )
                }
            }
        },
{
}

/// Where cloning or fetching is given up, the last try says why: how git was called and
/// how it ended, or why it could not be started.
pub proof fn last_try_says_why(want: findings::CheckoutView, replies: CheckoutReplies)
    requires
        !want.offline,
        replies.obtained@.len() >= 2,
    ensures
        replies.directory_present == Some(true) ==> (replies.obtained@.last()
            matches ProgramOutcome::Ended { success: false, status, .. } ==> next_step(want, replies)
            == StepView::Failed(
            "git -C "@ + want.dir + " "@ + text::joined(seq!["fetch"@, "--all"@, "--tags"@], " "@)
                + " failed with status "@ + status@,
        )),
        replies.directory_present == Some(false) && (replies.parent_created matches Some(Ok(_)))
            && want.branch is None ==> (replies.obtained@.last() matches ProgramOutcome::Ended {
            success: false,
            status,
            ..
        } ==> next_step(want, replies) == StepView::Failed(
            "git "@ + text::joined(seq!["clone"@, want.url, want.dir], " "@)
                + " failed with status "@ + status@,
        )),
        replies.directory_present == Some(true) ==> (replies.obtained@.last()
            matches ProgramOutcome::NotStarted(reason) ==> next_step(want, replies)
            == StepView::Failed(reason@)),
{
}

// ---------------------------------------------------------------------------
// Functions
// ---------------------------------------------------------------------------

impl CheckoutReplies {
    /// Nothing has been done yet.
    pub fn new() -> (r: Self)
        ensures
            r.directory_present is None,
            r.parent_created is None,
            r.obtained@.len() == 0,
            r.repository_present is None,
            r.switched is None,
            r.head is None,
            r.tagged is None,
    {
        CheckoutReplies {
            directory_present: None,
            parent_created: None,
            obtained: Vec::new(),
            repository_present: None,
            switched: None,
            head: None,
            tagged: None,
        }
    }
}

fn words_of(a: &str, b: &str) -> (r: Vec<String>)
    ensures
        text::texts(r@) == seq![a@, b@],
{
    let mut out: Vec<String> = Vec::new();
    out.push(a.to_owned());
    out.push(b.to_owned());
    assert(text::texts(out@) =~= seq![a@, b@]);
    out
}

fn with_word(list: Vec<String>, word: &str) -> (r: Vec<String>)
    ensures
        text::texts(r@) == text::texts(list@).push(word@),
{
    let ghost before = text::texts(list@);
    let mut out = list;
    out.push(word.to_owned());
    assert(text::texts(out@) =~= before.push(word@));
    out
}

fn clone_args(want: &CheckoutRequest) -> (r: Vec<String>)
    ensures
        text::texts(r@) == clone_words(want@),
        r@.len() >= 3,
        r@[0]@ == "clone"@,
        r@[1]@ == want.url@,
        r@[r@.len() - 1]@ == want.dir@,
        want.branch is None <==> r@.len() == 3,
        want.branch matches Some(branch) ==> r@.len() == 5 && r@[2]@ == "--branch"@ && r@[3]@
            == branch@,
{
    let mut out = words_of("clone", want.url.as_str());
    if let Some(branch) = &want.branch {
        out = with_word(with_word(out, "--branch"), branch.as_str());
    }
    out = with_word(out, want.dir.as_str());
    assert(text::texts(out@) =~= clone_words(want@));
    assert(forall|i: int| 0 <= i < out@.len() ==> text::texts(out@)[i] == #[trigger] out@[i]@);
    out
}

fn fetch_args() -> (r: Vec<String>)
    ensures
        text::texts(r@) == fetch_words(),
{
    let out = with_word(words_of("fetch", "--all"), "--tags");
    assert(text::texts(out@) =~= fetch_words());
    out
}

fn switch_args(want: &CheckoutRequest) -> (r: Vec<String>)
    ensures
        text::texts(r@) == switch_words(want@),
{
    let out = with_word(words_of("checkout", "--force"), want.rev.as_str());
    assert(text::texts(out@) =~= switch_words(want@));
    out
}

fn tag_args(tag: &str) -> (r: Vec<String>)
    ensures
        text::texts(r@) == tag_words(tag@),
{
    let out = with_word(with_word(words_of("rev-list", "-n"), "1"), tag);
    assert(text::texts(out@) =~= tag_words(tag@));
    out
}

fn show_call(repo: Option<&str>, args: &Vec<String>) -> (r: String)
    ensures
        r@ == shown_call(
            match repo {
                Some(dir) => Some(dir@),
                None => None,
            },
            text::texts(args@),
        ),
{
    let mut out = "git ".to_owned();
    if let Some(dir) = repo {
        out = "git -C ".to_owned();
        out.append(dir);
        out.append(" ");
    }
    out.append(text::join(args, " ").as_str());
    out
}

fn complain_of_end(repo: Option<&str>, args: &Vec<String>, status: &str) -> (r: String)
    ensures
        r@ == ended_badly(
            match repo {
                Some(dir) => Some(dir@),
                None => None,
            },
            text::texts(args@),
            status@,
        ),
{
    let mut out = show_call(repo, args);
    out.append(" failed with status ");
    out.append(status);
    out
}

/// Whether a try to clone or fetch failed, and how.
fn run_git_with_retry(repo: Option<&str>, args: Vec<String>, tries: &Vec<ProgramOutcome>) -> (r: Option<
    CheckoutStep,
>)
    ensures
        (match r {
            Some(step) => Some(step@),
            None => None,
        }) == obtain_step(
            match repo {
                Some(dir) => Some(dir@),
                None => None,
            },
            text::texts(args@),
            tries@,
        ),
{
    let shown = match repo {
        Some(dir) => Some(dir.to_owned()),
        None => None,
    };
    if tries.len() == 0 {
        return Some(CheckoutStep::Obtain { repo: shown, args });
    }
    let complaint = match &tries[tries.len() - 1] {
        ProgramOutcome::NotStarted(reason) => Some(reason.clone()),
        ProgramOutcome::Ended { success, status, output } => if *success {
            None
        } else {
            Some(complain_of_end(repo, &args, status.as_str()))
        },
    };
    match complaint {
        None => None,
        Some(message) => if tries.len() < OBTAIN_ATTEMPTS {
            Some(CheckoutStep::Obtain { repo: shown, args })
        } else {
            Some(CheckoutStep::Finished(Err(Failure::new(message))))
        },
    }
}

fn run_git_in_repo(dir: &str, args: &Vec<String>, outcome: &ProgramOutcome) -> (r: Option<String>)
    ensures
        text::opt_text(r) == run_complaint(dir@, text::texts(args@), *outcome),
{
    match outcome {
        ProgramOutcome::NotStarted(reason) => {
            let mut out = "failed to run ".to_owned();
            out.append(show_call(Some(dir), args).as_str());
            Some(out)
        },
        ProgramOutcome::Ended { success, status, output } => if *success {
            None
        } else {
            Some(complain_of_end(Some(dir), args, status.as_str()))
        },
    }
}

fn run_git_capture(dir: &str, args: &Vec<String>, outcome: &ProgramOutcome) -> (r: Result<
    String,
    Failure,
>)
    ensures
        match captured(dir@, text::texts(args@), *outcome) {
            Ok(said) => r is Ok && r->Ok_0@ == said,
            Err(message) => r is Err && r->Err_0@ == message,
        },
{
    match run_git_in_repo(dir, args, outcome) {
        Some(message) => Err(Failure::new(message)),
        None => {
            let said = match outcome {
                ProgramOutcome::Ended { success, status, output } => text::trim(output.as_str()),
                ProgramOutcome::NotStarted(reason) => String::new(),
            };
            if said.as_str().is_empty() {
                let mut message = "git command produced empty output: ".to_owned();
                message.append(show_call(Some(dir), args).as_str());
                Err(Failure::new(message))
            } else {
                Ok(said)
            }
        },
    }
}

fn failed(message: String) -> (r: CheckoutStep)
    ensures
        r@ == StepView::Failed(message@),
{
    CheckoutStep::Finished(Err(Failure::new(message)))
}

fn step_for_copy(want: &CheckoutRequest, replies: &CheckoutReplies) -> (r: Option<CheckoutStep>)
    ensures
        (match r {
            Some(step) => Some(step@),
            None => None,
        }) == copy_step(want@, *replies),
{
    match replies.directory_present {
        None => Some(CheckoutStep::LookForDirectory(want.dir.clone())),
        Some(true) => if want.offline {
            None
        } else {
            run_git_with_retry(Some(want.dir.as_str()), fetch_args(), &replies.obtained)
        },
        Some(false) => {
            if want.offline {
                let mut message =
                    "offline mode is enabled and dependency checkout is missing: ".to_owned();
                message.append(want.dir.as_str());
                return Some(failed(message));
            }
            if let Some(parent) = paths::parent_of(want.windows, want.dir.as_str()) {
                match &replies.parent_created {
                    None => {
                        return Some(CheckoutStep::CreateParent(parent));
                    },
                    Some(Err(failure)) => {
                        return Some(CheckoutStep::Finished(Err(failure.copied())));
                    },
                    Some(Ok(_)) => {},
                }
            }
            run_git_with_retry(None, clone_args(want), &replies.obtained)
        },
    }
}

fn step_for_tag(want: &CheckoutRequest, replies: &CheckoutReplies, resolved: String) -> (r:
    CheckoutStep)
    ensures
        r@ == tag_step(want@, *replies, resolved@),
{
    if !text::starts_with(resolved.as_str(), want.rev.as_str()) {
        let mut message = "git checkout verification failed for ".to_owned();
        message.append(want.dir.as_str());
        message.append(": requested ");
        message.append(want.rev.as_str());
        message.append(", got ");
        message.append(resolved.as_str());
        return failed(message);
    }
    match &want.tag {
        None => CheckoutStep::Finished(Ok(resolved)),
        Some(tag) => {
            let args = tag_args(tag.as_str());
            match &replies.tagged {
                None => CheckoutStep::ReadTag(args),
                Some(tagged) => match run_git_capture(want.dir.as_str(), &args, tagged) {
                    Err(failure) => CheckoutStep::Finished(Err(failure)),
                    Ok(tag_rev) => if tag_rev == resolved {
                        CheckoutStep::Finished(Ok(resolved))
                    } else {
                        let mut message = "tag '".to_owned();
                        message.append(tag.as_str());
                        message.append("' does not match resolved revision '");
                        message.append(resolved.as_str());
                        message.append("' for ");
                        message.append(want.dir.as_str());
                        failed(message)
                    },
                },
            }
        },
    }
}

/// What to do next to bring a repository to the wanted revision.
pub fn materialize_git_dependency(want: &CheckoutRequest, replies: &CheckoutReplies) -> (r:
    CheckoutStep)
    ensures
        r@ == next_step(want@, *replies),
{
    if let Some(step) = step_for_copy(want, replies) {
        return step;
    }
    let dir = want.dir.as_str();
    match replies.repository_present {
        None => CheckoutStep::LookForRepository(paths::join(want.windows, dir, ".git")),
        Some(false) => {
            let mut message = "dependency checkout is not a git repository: ".to_owned();
            message.append(dir);
            failed(message)
        },
        Some(true) => {
            let switch = switch_args(want);
            match &replies.switched {
                None => CheckoutStep::Switch(switch),
                Some(switched) => match run_git_in_repo(dir, &switch, switched) {
                    Some(message) => failed(message),
                    None => {
                        let args = words_of("rev-parse", "HEAD");
                        assert(text::texts(args@) =~= head_words());
                        match &replies.head {
                            None => CheckoutStep::ReadHead(args),
                            Some(head) => match run_git_capture(dir, &args, head) {
                                Err(failure) => CheckoutStep::Finished(Err(failure)),
                                Ok(resolved) => step_for_tag(want, replies, resolved),
                            },
                        }
                    },
                },
            }
        },
    }
}

}
