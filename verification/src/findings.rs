//! What the resolver knows of the world, and what it asks for.
//!
//! The resolver does not touch the disk or run a program. It works on
//! [`Findings`]; where one is missing it stops with a [`Request`], and goes on
//! when it is called again with the answer among the findings.
use vstd::prelude::*;
use vstd::string::*;

use crate::config::CookConfig;
use crate::failure::Failure;
use crate::ordered_map;
use crate::ordered_map::OrderedMap;
use crate::text;

verus! {

broadcast use vstd::string::group_string_axioms;

/// A git repository that has to be present at a given revision.
#[derive(Debug)]
pub struct CheckoutRequest {
    pub dir: String,
    pub url: String,
    pub rev: String,
    pub branch: Option<String>,
    pub tag: Option<String>,
    pub offline: bool,
    /// Paths follow the rules of Windows.
    pub windows: bool,
}

/// Something the resolver has to know.
#[derive(Debug)]
pub enum Request {
    /// The contents of a manifest.
    Manifest(String),
    /// What lies in a directory after `turn` checkouts.
    Directory { path: String, turn: usize },
    /// The bytes of a file after `turn` checkouts.
    File { path: String, turn: usize },
    /// What a checkout comes to that follows `turn` others.
    Checkout { want: CheckoutRequest, turn: usize },
}

/// What lies in the directory of a dependency.
#[derive(Debug, Clone)]
pub struct DirectoryFacts {
    /// The directory itself, with links resolved.
    pub root: String,
    /// Its `cook.toml`, if there is one, with links resolved.
    pub cook_manifest: Option<String>,
    /// Whether there is a `CMakeLists.txt`.
    pub cmake_lists: bool,
    /// Whether there is a `Makefile`.
    pub makefile: bool,
    /// Whether there is a `makefile`.
    pub lower_makefile: bool,
}

/// What a checkout came to.
#[derive(Debug)]
pub struct CheckedOut {
    /// The revision that it ended at.
    pub rev: String,
    /// What lies in its directory at that revision.
    pub directory: Result<DirectoryFacts, Failure>,
}

/// What has been seen between one checkout and the next.
#[derive(Debug)]
pub struct Sight {
    pub directories: OrderedMap<Result<DirectoryFacts, Failure>>,
    pub files: OrderedMap<Result<Vec<u8>, Failure>>,
}

/// The answers that have been given so far.
///
/// A checkout may change what lies on disk, and the same one may be wanted again
/// after another. So the checkouts stand in the order in which they were made,
/// and the sight with the number `turn` holds what was seen after `turn` of them.
/// A manifest is read once, when its package is first visited.
#[derive(Debug)]
pub struct Findings {
    pub manifests: OrderedMap<Result<CookConfig, Failure>>,
    pub sights: Vec<Sight>,
    pub checkouts: Vec<(CheckoutRequest, Result<CheckedOut, Failure>)>,
}

/// Why a resolution did not come to an end.
#[derive(Debug)]
pub enum Stop {
    /// The answer to a request is missing.
    Need(Request),
    /// The resolution is impossible.
    Failed(Failure),
}

// ---------------------------------------------------------------------------
// Model
// ---------------------------------------------------------------------------

/// The model of a [`CheckoutRequest`].
#[verifier::ext_equal]
pub struct CheckoutView {
    pub dir: Seq<char>,
    pub url: Seq<char>,
    pub rev: Seq<char>,
    pub branch: Option<Seq<char>>,
    pub tag: Option<Seq<char>>,
    pub offline: bool,
    pub windows: bool,
}

impl View for CheckoutRequest {
    type V = CheckoutView;

    open spec fn view(&self) -> CheckoutView {
        CheckoutView {
            dir: self.dir@,
            url: self.url@,
            rev: self.rev@,
            branch: text::opt_text(self.branch),
            tag: text::opt_text(self.tag),
            offline: self.offline,
            windows: self.windows,
        }
    }
}

/// The model of a [`Request`].
#[verifier::ext_equal]
pub enum RequestView {
    Manifest(Seq<char>),
    Directory { path: Seq<char>, turn: int },
    File { path: Seq<char>, turn: int },
    Checkout { want: CheckoutView, turn: int },
}

impl View for Request {
    type V = RequestView;

    open spec fn view(&self) -> RequestView {
        match self {
            Request::Manifest(path) => RequestView::Manifest(path@),
            Request::Directory { path, turn } => RequestView::Directory {
                path: path@,
                turn: *turn as int,
            },
            Request::File { path, turn } => RequestView::File { path: path@, turn: *turn as int },
            Request::Checkout { want, turn } => RequestView::Checkout {
                want: want@,
                turn: *turn as int,
            },
        }
    }
}

/// The model of a [`Stop`].
#[verifier::ext_equal]
pub enum StopView {
    Need(RequestView),
    Failed(Seq<char>),
}

impl View for Stop {
    type V = StopView;

    open spec fn view(&self) -> StopView {
        match self {
            Stop::Need(request) => StopView::Need(request@),
            Stop::Failed(failure) => StopView::Failed(failure@),
        }
    }
}

/// What was seen in the directory `path` after `turn` checkouts.
pub open spec fn directory_seen(known: Findings, turn: int, path: Seq<char>) -> Option<
    Result<DirectoryFacts, Failure>,
> {
    if 0 <= turn < known.sights@.len() {
        ordered_map::lookup(known.sights@[turn].directories@, path)
    } else {
        None
    }
}

/// What the file `path` held after `turn` checkouts.
pub open spec fn file_seen(known: Findings, turn: int, path: Seq<char>) -> Option<
    Result<Vec<u8>, Failure>,
> {
    if 0 <= turn < known.sights@.len() {
        ordered_map::lookup(known.sights@[turn].files@, path)
    } else {
        None
    }
}

/// What the checkout `want` came to that followed `turn` others.
pub open spec fn checkout_answer(known: Findings, turn: int, want: CheckoutView) -> Option<
    Result<CheckedOut, Failure>,
> {
    if 0 <= turn < known.checkouts@.len() && known.checkouts@[turn].0@ == want {
        Some(known.checkouts@[turn].1)
    } else {
        None
    }
}

// ---------------------------------------------------------------------------
// Functions
// ---------------------------------------------------------------------------

/// What is wrong with the directory of a dependency, if anything.
pub open spec fn directory_complaint(
    path: Seq<char>,
    present: bool,
    is_dir: bool,
) -> Option<Seq<char>> {
    if !present {
        Some("dependency directory not found: "@ + path)
    } else if !is_dir {
        Some("dependency path is not a directory: "@ + path)
    } else {
        None
    }
}

/// Whether there is a directory at `path`.
pub fn check_directory(path: &str, present: bool, is_dir: bool) -> (r: Result<(), Failure>)
    ensures
        match directory_complaint(path@, present, is_dir) {
            None => r is Ok,
            Some(message) => r is Err && r->Err_0@ == message,
        },
{
    if !present {
        let mut message = "dependency directory not found: ".to_owned();
        message.append(path);
        return Err(Failure::new(message));
    }
    if !is_dir {
        let mut message = "dependency path is not a directory: ".to_owned();
        message.append(path);
        return Err(Failure::new(message));
    }
    Ok(())
}

/// Whether there is a manifest at `path`.
pub fn check_manifest(path: &str, present: bool) -> (r: Result<(), Failure>)
    ensures
        present ==> r is Ok,
        !present ==> r is Err && r->Err_0@ == "manifest not found: "@ + path@,
{
    if present {
        return Ok(());
    }
    let mut message = "manifest not found: ".to_owned();
    message.append(path);
    Err(Failure::new(message))
}

impl CheckoutRequest {
    fn same(&self, other: &Self) -> (r: bool)
        ensures
            r == (self@ == other@),
    {
        let r = self.dir == other.dir && self.url == other.url && self.rev == other.rev
            && text::same_opt(&self.branch, &other.branch) && text::same_opt(&self.tag, &other.tag)
            && self.offline == other.offline && self.windows == other.windows;
        r
    }
}

impl Findings {
    /// Nothing is known.
    pub fn new() -> (r: Self)
        ensures
            r.manifests@.len() == 0,
            r.sights@.len() == 0,
            r.checkouts@.len() == 0,
    {
        Findings { manifests: OrderedMap::new(), sights: Vec::new(), checkouts: Vec::new() }
    }

    /// What was seen in the directory `path` after `turn` checkouts.
    pub fn directory(&self, turn: usize, path: &str) -> (r: Option<
        &Result<DirectoryFacts, Failure>,
    >)
        ensures
            r is Some <==> directory_seen(*self, turn as int, path@) is Some,
            r matches Some(found) ==> Some(*found) == directory_seen(*self, turn as int, path@),
    {
        if turn < self.sights.len() {
            self.sights[turn].directories.get(path)
        } else {
            None
        }
    }

    /// What the file `path` held after `turn` checkouts.
    pub fn file(&self, turn: usize, path: &str) -> (r: Option<&Result<Vec<u8>, Failure>>)
        ensures
            r is Some <==> file_seen(*self, turn as int, path@) is Some,
            r matches Some(found) ==> Some(*found) == file_seen(*self, turn as int, path@),
    {
        if turn < self.sights.len() {
            self.sights[turn].files.get(path)
        } else {
            None
        }
    }

    /// What the checkout `want` came to that followed `turn` others.
    pub fn checkout(&self, turn: usize, want: &CheckoutRequest) -> (r: Option<
        &Result<CheckedOut, Failure>,
    >)
        ensures
            r is Some <==> checkout_answer(*self, turn as int, want@) is Some,
            r matches Some(found) ==> Some(*found) == checkout_answer(*self, turn as int, want@),
            r is Some ==> turn < usize::MAX,
    {
        if turn < self.checkouts.len() && self.checkouts[turn].0.same(want) {
            Some(&self.checkouts[turn].1)
        } else {
            None
        }
    }
}

impl Sight {
    /// Nothing has been seen.
    pub fn new() -> (r: Self)
        ensures
            r.directories@.len() == 0,
            r.files@.len() == 0,
    {
        Sight { directories: OrderedMap::new(), files: OrderedMap::new() }
    }
}

// ---------------------------------------------------------------------------
// Laws
// ---------------------------------------------------------------------------

/// What was seen counts only for the number of checkouts after which it was seen, and
/// the answer to a checkout only for that checkout in its turn.
pub proof fn answers_belong_to_their_turn(
    known: Findings,
    turn: int,
    path: Seq<char>,
    want: CheckoutView,
)
    ensures
        turn < 0 || turn >= known.sights@.len() ==> directory_seen(known, turn, path) is None
            && file_seen(known, turn, path) is None,
        0 <= turn < known.sights@.len() ==> directory_seen(known, turn, path)
            == ordered_map::lookup(known.sights@[turn].directories@, path) && file_seen(
            known,
            turn,
            path,
        ) == ordered_map::lookup(known.sights@[turn].files@, path),
        checkout_answer(known, turn, want) is Some <==> 0 <= turn < known.checkouts@.len()
            && known.checkouts@[turn].0@ == want,
        checkout_answer(known, turn, want) matches Some(answer) ==> answer
            == known.checkouts@[turn].1,
{
}

/// A dependency has to be there and has to be a directory.
pub proof fn dependencies_are_directories(path: Seq<char>, present: bool, is_dir: bool)
    ensures
        directory_complaint(path, present, is_dir) is None <==> present && is_dir,
        !present ==> directory_complaint(path, present, is_dir) == Some(
            "dependency directory not found: "@ + path,
        ),
        present && !is_dir ==> directory_complaint(path, present, is_dir) == Some(
            "dependency path is not a directory: "@ + path,
        ),
{
}

/// A request for a checkout is read whole.
pub proof fn checkout_requests_are_read_whole(want: CheckoutRequest)
    ensures
        want@.dir == want.dir@,
        want@.url == want.url@,
        want@.rev == want.rev@,
        want@.branch == text::opt_text(want.branch),
        want@.tag == text::opt_text(want.tag),
        want@.offline == want.offline,
        want@.windows == want.windows,
{
}

}
