//! Semantic versions, as the `semver` crate reads and orders them.
use vstd::prelude::*;
use vstd::string::*;

use crate::failure::Failure;
use crate::text;

verus! {

broadcast use vstd::string::group_string_axioms;

// ---------------------------------------------------------------------------
// Model
// ---------------------------------------------------------------------------

/// The parts of a version.
#[verifier::ext_equal]
pub struct VersionView {
    pub major: u64,
    pub minor: u64,
    pub patch: u64,
    pub pre: Seq<char>,
    pub build: Seq<char>,
}

/// The version in which nothing but three numbers is given.
pub open spec fn plain(major: u64, minor: u64, patch: u64) -> VersionView {
    VersionView { major, minor, patch, pre: Seq::empty(), build: Seq::empty() }
}

/// The text of three numbers with dots between them.
pub open spec fn core_text(major: u64, minor: u64, patch: u64) -> Seq<char> {
    text::decimal(major as nat) + "."@ + text::decimal(minor as nat) + "."@ + text::decimal(
        patch as nat,
    )
}

/// What `semver::Version::parse` makes of a text: major, minor, patch, pre-release
/// and build.
pub uninterp spec fn semver_parsed(
    text: Seq<char>,
) -> Option<(u64, u64, u64, Seq<char>, Seq<char>)>;

/// The version that a text denotes.
pub open spec fn parsed(text: Seq<char>) -> Option<VersionView> {
    match semver_parsed(text) {
        Some((major, minor, patch, pre, build)) => Some(
            VersionView { major, minor, patch, pre, build },
        ),
        None => None,
    }
}

/// Some text denotes the version `v`.
pub open spec fn is_version(v: VersionView) -> bool {
    exists|t: Seq<char>| #[trigger] parsed(t) == Some(v)
}

/// How semver orders two versions with equal numbers that both have, or both
/// lack, a pre-release, given by pre-release and build.
pub uninterp spec fn semver_tail_before(
    left_pre: Seq<char>,
    left_build: Seq<char>,
    right_pre: Seq<char>,
    right_build: Seq<char>,
) -> bool;

/// Two versions differ at most in the texts of their pre-release and build.
pub open spec fn same_rank(a: VersionView, b: VersionView) -> bool {
    a.major == b.major && a.minor == b.minor && a.patch == b.patch && (a.pre.len() == 0) == (
    b.pre.len() == 0)
}

/// The order of versions: by their numbers; a pre-release comes before its release.
pub open spec fn precedes(a: VersionView, b: VersionView) -> bool {
    if a.major != b.major {
        a.major < b.major
    } else if a.minor != b.minor {
        a.minor < b.minor
    } else if a.patch != b.patch {
        a.patch < b.patch
    } else if (a.pre.len() == 0) != (b.pre.len() == 0) {
        b.pre.len() == 0
    } else {
        semver_tail_before(a.pre, a.build, b.pre, b.build)
    }
}

/// Whether `semver::VersionReq::parse` accepts a text.
pub uninterp spec fn semver_requirement(text: Seq<char>) -> bool;

/// Whether the requirement `requirement` is met by the version with the given
/// numbers and pre-release.
pub uninterp spec fn semver_matches(
    requirement: Seq<char>,
    major: u64,
    minor: u64,
    patch: u64,
    pre: Seq<char>,
) -> bool;

/// Whether a requirement is met by a version.
pub open spec fn meets(requirement: Seq<char>, v: VersionView) -> bool {
    semver_matches(requirement, v.major, v.minor, v.patch, v.pre)
}

/// The position of the first `-` or `+` of `s`, or its length.
pub open spec fn suffix_start(s: Seq<char>) -> int
    decreases s.len(),
{
    if s.len() == 0 || s[0] == '-' || s[0] == '+' {
        0
    } else {
        1 + suffix_start(s.drop_first())
    }
}

/// `s` with the numbers that are missing at the end of its core filled in by zeros.
pub open spec fn completed(s: Seq<char>) -> Option<Seq<char>> {
    let i = suffix_start(s);
    let core = s.take(i);
    let count = text::split(core, '.').len();
    if count == 1 {
        Some(core + ".0.0"@ + s.skip(i))
    } else if count == 2 {
        Some(core + ".0"@ + s.skip(i))
    } else {
        None
    }
}

/// The version that a text denotes when missing numbers are taken for zeros.
pub open spec fn parsed_loosely(s: Seq<char>) -> Option<VersionView> {
    match parsed(s) {
        Some(v) => Some(v),
        None => match completed(s) {
            Some(full) => parsed(full),
            None => None,
        },
    }
}

/// The complaint about a text that is no version.
pub open spec fn not_a_version(input: Seq<char>) -> Seq<char> {
    "version '"@ + input + "' is not valid semver"@
}

/// The version that a user or a recipe wrote down.
pub open spec fn read_version(input: Seq<char>) -> Result<VersionView, Seq<char>> {
    let s = text::trimmed(input);
    if s.len() == 0 {
        Err("version cannot be empty"@)
    } else {
        match parsed_loosely(s) {
            Some(v) => Ok(v),
            None => Err(not_a_version(input)),
        }
    }
}

/// Which versions are wanted.
#[verifier::ext_equal]
pub enum MatcherView {
    Exact(VersionView),
    Requirement(Seq<char>),
}

/// A character that only requirements hold.
pub open spec fn is_operator(c: char) -> bool {
    c == '^' || c == '~' || c == '*' || c == '>' || c == '<' || c == '=' || c == ','
}

/// `s` holds a character that only requirements hold.
pub open spec fn has_operator(s: Seq<char>) -> bool {
    exists|i: int| 0 <= i < s.len() && is_operator(#[trigger] s[i])
}

/// What a user wrote down to say which versions are wanted.
pub open spec fn read_matcher(input: Seq<char>) -> Result<MatcherView, Seq<char>> {
    let s = text::trimmed(input);
    if s.len() == 0 {
        Err("version requirement cannot be empty"@)
    } else if !has_operator(s) {
        match read_version(s) {
            Ok(v) => Ok(MatcherView::Exact(v)),
            Err(message) => Err(message),
        }
    } else if semver_requirement(s) {
        Ok(MatcherView::Requirement(s))
    } else {
        Err("'"@ + input + "' is not a valid semver requirement"@)
    }
}

/// Whether a version is wanted.
pub open spec fn wanted(matcher: MatcherView, v: VersionView) -> bool {
    match matcher {
        MatcherView::Exact(exact) => v == exact,
        MatcherView::Requirement(requirement) => meets(requirement, v),
    }
}

// ---------------------------------------------------------------------------
// The outside crate
// ---------------------------------------------------------------------------

/// Calls `semver::Version::parse` and takes the version apart. Trusted: the
/// result depends on the text alone; three numbers without leading zeros and
/// with dots between them are the version of these numbers; and a text with
/// fewer than two dots is no version.
#[verifier::external_body]
fn semver_parse(s: &str) -> (r: Option<(u64, u64, u64, String, String)>)
    ensures
        match semver_parsed(s@) {
            Some(p) => r is Some && (r->0).0 == p.0 && (r->0).1 == p.1 && (r->0).2 == p.2 && (
            r->0).3@ == p.3 && (r->0).4@ == p.4,
            None => r is None,
        },
        forall|a: u64, b: u64, c: u64|
            s@ == #[trigger] core_text(a, b, c) ==> r is Some && (r->0).0 == a && (r->0).1 == b && (
            r->0).2 == c && (r->0).3@ == Seq::<char>::empty() && (r->0).4@ == Seq::<char>::empty(),
        r is Some ==> text::split(s@, '.').len() >= 3,
{
    match semver::Version::parse(s) {
        Ok(v) => Some(
            (v.major, v.minor, v.patch, v.pre.as_str().to_owned(), v.build.as_str().to_owned()),
        ),
        Err(_) => None,
    }
}

/// Puts two versions together again and compares them with `<` of
/// `semver::Version`. Trusted: the order goes by the three numbers, then a
/// pre-release comes before its release, then pre-release and build decide; and
/// the order is total.
#[verifier::external_body]
fn semver_less(left: &SemVersion, right: &SemVersion) -> (r: bool)
    requires
        is_version(left@),
        is_version(right@),
    ensures
        same_rank(left@, right@) ==> r == semver_tail_before(
            left@.pre,
            left@.build,
            right@.pre,
            right@.build,
        ),
        !same_rank(left@, right@) ==> r == precedes(left@, right@),
        r ==> !precedes(right@, left@),
        !r ==> forall|other: VersionView|
            is_version(other) && #[trigger] precedes(left@, other) ==> precedes(right@, other),
{
    let a = semver::Version {
        major: left.major,
        minor: left.minor,
        patch: left.patch,
        pre: semver::Prerelease::new(left.pre.as_str()).unwrap_or_default(),
        build: semver::BuildMetadata::new(left.build.as_str()).unwrap_or_default(),
    };
    let b = semver::Version {
        major: right.major,
        minor: right.minor,
        patch: right.patch,
        pre: semver::Prerelease::new(right.pre.as_str()).unwrap_or_default(),
        build: semver::BuildMetadata::new(right.build.as_str()).unwrap_or_default(),
    };
    a < b
}

/// Calls `semver::VersionReq::parse`. Trusted: whether it succeeds depends on
/// the text alone.
#[verifier::external_body]
fn semver_accepts(requirement: &str) -> (r: bool)
    ensures
        r == semver_requirement(requirement@),
{
    semver::VersionReq::parse(requirement).is_ok()
}

/// Reads the requirement again, puts the version together again and calls
/// `semver::VersionReq::matches`. Trusted: the result depends on the requirement
/// and on the version's numbers and pre-release.
#[verifier::external_body]
fn semver_met(requirement: &str, version: &SemVersion) -> (r: bool)
    requires
        semver_requirement(requirement@),
        is_version(version@),
    ensures
        r == semver_matches(
            requirement@,
            version@.major,
            version@.minor,
            version@.patch,
            version@.pre,
        ),
{
    let v = semver::Version {
        major: version.major,
        minor: version.minor,
        patch: version.patch,
        pre: semver::Prerelease::new(version.pre.as_str()).unwrap_or_default(),
        build: semver::BuildMetadata::new(version.build.as_str()).unwrap_or_default(),
    };
    match semver::VersionReq::parse(requirement) {
        Ok(req) => req.matches(&v),
        Err(_) => false,
    }
}

// ---------------------------------------------------------------------------
// Versions
// ---------------------------------------------------------------------------

/// A semantic version.
#[derive(Debug)]
pub struct SemVersion {
    major: u64,
    minor: u64,
    patch: u64,
    pre: String,
    build: String,
}

impl View for SemVersion {
    type V = VersionView;

    closed spec fn view(&self) -> VersionView {
        VersionView {
            major: self.major,
            minor: self.minor,
            patch: self.patch,
            pre: self.pre@,
            build: self.build@,
        }
    }
}

impl SemVersion {
    #[verifier::type_invariant]
    spec fn denoted(self) -> bool {
        is_version(self@)
    }

    /// The version that a text denotes.
    pub fn parse(s: &str) -> (r: Option<Self>)
        ensures
            (match r {
                Some(v) => Some(v@),
                None => None,
            }) == parsed(s@),
            forall|a: u64, b: u64, c: u64|
                s@ == #[trigger] core_text(a, b, c) ==> r is Some && r->0@ == plain(a, b, c),
            r is Some ==> text::split(s@, '.').len() >= 3,
    {
        match semver_parse(s) {
            Some((major, minor, patch, pre, build)) => {
                assert(parsed(s@) == Some(
                    VersionView { major, minor, patch, pre: pre@, build: build@ },
                ));
                Some(SemVersion { major, minor, patch, pre, build })
            },
            None => None,
        }
    }

    /// Whether the version is the release of its numbers.
    pub fn is_release(&self) -> (r: bool)
        ensures
            r == (self@.pre.len() == 0),
    {
        self.pre.as_str().is_empty()
    }

    /// The three numbers of the version.
    pub fn numbers(&self) -> (r: (u64, u64, u64))
        ensures
            r == (self@.major, self@.minor, self@.patch),
    {
        (self.major, self.minor, self.patch)
    }

    /// Whether two versions are the same.
    pub fn same(&self, other: &Self) -> (r: bool)
        ensures
            r == (self@ == other@),
    {
        let r = self.major == other.major && self.minor == other.minor && self.patch == other.patch
            && self.pre == other.pre && self.build == other.build;
        assert(r == (self@ =~= other@));
        r
    }

    /// Whether this version comes before another one.
    pub fn before(&self, other: &Self) -> (r: bool)
        ensures
            r == precedes(self@, other@),
            r ==> !precedes(other@, self@),
            !r ==> forall|third: VersionView|
                is_version(third) && #[trigger] precedes(self@, third) ==> precedes(other@, third),
            is_version(self@),
            is_version(other@),
    {
        proof {
            use_type_invariant(self);
            use_type_invariant(other);
        }
        semver_less(self, other)
    }
}

fn find_suffix(v: &Vec<char>) -> (r: usize)
    ensures
        r <= v@.len(),
        r == suffix_start(v@),
{
    let ghost all = v@;
    let mut i: usize = 0;
    assert(all.skip(0) == all);
    while i < v.len() && v[i] != '-' && v[i] != '+'
        invariant
            i <= v@.len(),
            all == v@,
            suffix_start(all) == i + suffix_start(all.skip(i as int)),
        decreases v.len() - i,
    {
        assert(all.skip(i as int).drop_first() == all.skip(i + 1));
        i += 1;
    }
    i
}

/// Only numbers and dots: nothing that begins a suffix.
proof fn lemma_no_suffix(s: Seq<char>)
    requires
        forall|i: int| 0 <= i < s.len() ==> s[i] != '-' && s[i] != '+',
    ensures
        suffix_start(s) == s.len(),
    decreases s.len(),
{
    if s.len() > 0 {
        let rest = s.drop_first();
        assert forall|i: int| 0 <= i < rest.len() implies rest[i] != '-' && rest[i] != '+' by {
            assert(rest[i] == s[i + 1]);
        }
        lemma_no_suffix(rest);
    }
}

proof fn lemma_one_number(a: u64)
    ensures
        text::split(text::decimal(a as nat), '.').len() == 1,
        completed(text::decimal(a as nat)) == Some(core_text(a, 0, 0)),
{
    let s = text::decimal(a as nat);
    text::decimal_is_digits(a as nat);
    text::split_of_one_piece(s, '.');
    lemma_no_suffix(s);
    reveal_strlit(".0.0");
    reveal_strlit(".");
    assert(s.take(s.len() as int) =~= s);
    assert(text::decimal(0) =~= seq!['0']);
    assert(s + ".0.0"@ + s.skip(s.len() as int) =~= core_text(a, 0, 0));
}

proof fn lemma_two_numbers(a: u64, b: u64)
    ensures
        ({
            let s = text::decimal(a as nat) + "."@ + text::decimal(b as nat);
            &&& text::split(s, '.').len() == 2
            &&& completed(s) == Some(core_text(a, b, 0))
        }),
{
    let x = text::decimal(a as nat);
    let y = text::decimal(b as nat);
    let s = x + "."@ + y;
    text::decimal_is_digits(a as nat);
    text::decimal_is_digits(b as nat);
    reveal_strlit(".0");
    reveal_strlit(".");
    assert("."@ =~= seq!['.']);
    text::split_of_more(x, '.', y);
    text::split_of_one_piece(y, '.');
    assert forall|i: int| 0 <= i < s.len() implies s[i] != '-' && s[i] != '+' by {
        if i < x.len() {
            assert(s[i] == x[i]);
        } else if i > x.len() {
            assert(s[i] == y[i - x.len() - 1]);
        }
    }
    lemma_no_suffix(s);
    assert(s.take(s.len() as int) =~= s);
    assert(text::decimal(0) =~= seq!['0']);
    assert(s + ".0"@ + s.skip(s.len() as int) =~= core_text(a, b, 0));
}

/// The version that a user or a recipe wrote down; numbers missing at its end
/// are taken for zeros.
pub fn parse_semver_loose(input: &str) -> (r: Result<SemVersion, Failure>)
    ensures
        match read_version(input@) {
            Ok(v) => r is Ok && r->Ok_0@ == v,
            Err(message) => r is Err && r->Err_0@ == message,
        },
        forall|a: u64|
            text::trimmed(input@) == #[trigger] text::decimal(a as nat) ==> r is Ok && r->Ok_0@
                == plain(a, 0, 0),
        forall|a: u64, b: u64|
            text::trimmed(input@) == #[trigger] text::decimal(a as nat) + "."@
                + #[trigger] text::decimal(b as nat) ==> r is Ok && r->Ok_0@ == plain(a, b, 0),
        forall|a: u64, b: u64, c: u64|
            text::trimmed(input@) == #[trigger] core_text(a, b, c) ==> r is Ok && r->Ok_0@ == plain(
                a,
                b,
                c,
            ),
{
    let s = text::trim(input);
    proof {
        assert forall|a: u64| s@ == #[trigger] text::decimal(a as nat) implies s@.len() > 0
            && text::split(s@, '.').len() == 1 && completed(s@) == Some(core_text(a, 0, 0)) by {
            text::decimal_is_digits(a as nat);
            lemma_one_number(a);
        }
        assert forall|a: u64, b: u64|
            s@ == #[trigger] text::decimal(a as nat) + "."@ + #[trigger] text::decimal(
                b as nat,
            ) implies s@.len() > 0 && text::split(s@, '.').len() == 2 && completed(s@) == Some(
            core_text(a, b, 0),
        ) by {
            text::decimal_is_digits(a as nat);
            lemma_two_numbers(a, b);
        }
        assert forall|a: u64, b: u64, c: u64| s@ == #[trigger] core_text(a, b, c) implies s@.len()
            > 0 by {
            text::decimal_is_digits(a as nat);
        }
    }
    if s.as_str().is_empty() {
        return Err(Failure::new("version cannot be empty".to_owned()));
    }
    if let Some(version) = SemVersion::parse(s.as_str()) {
        return Ok(version);
    }
    let mut message = "version '".to_owned();
    message.append(input);
    message.append("' is not valid semver");
    let v = text::chars_of(s.as_str());
    let i = find_suffix(&v);
    let core = text::text_of(&v, 0, i);
    let suffix = text::text_of(&v, i, v.len());
    assert(core@ == s@.take(i as int));
    assert(suffix@ == s@.skip(i as int));
    let parts = text::split_on(core.as_str(), '.');
    assert(parts@.len() == text::texts(parts@).len());
    let mut full = core;
    if parts.len() == 1 {
        full.append(".0.0");
    } else if parts.len() == 2 {
        full.append(".0");
    } else {
        return Err(Failure::new(message));
    }
    full.append(suffix.as_str());
    match SemVersion::parse(full.as_str()) {
        Some(version) => Ok(version),
        None => Err(Failure::new(message)),
    }
}

// ---------------------------------------------------------------------------
// Requirements
// ---------------------------------------------------------------------------

/// A version requirement that semver understands.
#[derive(Debug)]
pub struct VersionRequirement {
    text: String,
}

impl View for VersionRequirement {
    type V = Seq<char>;

    closed spec fn view(&self) -> Seq<char> {
        self.text@
    }
}

impl VersionRequirement {
    #[verifier::type_invariant]
    spec fn understood(self) -> bool {
        semver_requirement(self@)
    }
}

/// Which versions are wanted.
#[derive(Debug)]
pub enum VersionMatcher {
    Exact(SemVersion),
    Requirement(VersionRequirement),
}

impl View for VersionMatcher {
    type V = MatcherView;

    open spec fn view(&self) -> MatcherView {
        match self {
            VersionMatcher::Exact(v) => MatcherView::Exact(v@),
            VersionMatcher::Requirement(req) => MatcherView::Requirement(req@),
        }
    }
}

impl VersionMatcher {
    /// Whether a version is wanted.
    pub fn matches(&self, candidate: &SemVersion) -> (r: bool)
        ensures
            r == wanted(self@, candidate@),
    {
        match self {
            VersionMatcher::Exact(exact) => candidate.same(exact),
            VersionMatcher::Requirement(req) => {
                proof {
                    use_type_invariant(req);
                    use_type_invariant(candidate);
                }
                semver_met(req.text.as_str(), candidate)
            },
        }
    }
}

fn holds_operator(s: &str) -> (r: bool)
    ensures
        r == has_operator(s@),
{
    let v = text::chars_of(s);
    let mut i: usize = 0;
    while i < v.len()
        invariant
            i <= v@.len(),
            v@ == s@,
            forall|j: int| 0 <= j < i ==> !is_operator(#[trigger] v@[j]),
        decreases v.len() - i,
    {
        let c = v[i];
        if c == '^' || c == '~' || c == '*' || c == '>' || c == '<' || c == '=' || c == ',' {
            assert(is_operator(s@[i as int]));
            return true;
        }
        i += 1;
    }
    false
}

/// What a user wrote down to say which versions are wanted.
pub fn parse_version_matcher(input: &str) -> (r: Result<VersionMatcher, Failure>)
    ensures
        match read_matcher(input@) {
            Ok(m) => r is Ok && r->Ok_0@ == m,
            Err(message) => r is Err && r->Err_0@ == message,
        },
{
    let s = text::trim(input);
    if s.as_str().is_empty() {
        return Err(Failure::new("version requirement cannot be empty".to_owned()));
    }
    if !holds_operator(s.as_str()) {
        return match parse_semver_loose(s.as_str()) {
            Ok(version) => Ok(VersionMatcher::Exact(version)),
            Err(failure) => Err(failure),
        };
    }
    if semver_accepts(s.as_str()) {
        Ok(VersionMatcher::Requirement(VersionRequirement { text: s }))
    } else {
        let mut message = "'".to_owned();
        message.append(input);
        message.append("' is not a valid semver requirement");
        Err(Failure::new(message))
    }
}

// ---------------------------------------------------------------------------
// Laws
// ---------------------------------------------------------------------------

/// Versions are ordered by their numbers, the first that differs, and a pre-release
/// comes before the release of its numbers.
pub proof fn numbers_come_first(a: VersionView, b: VersionView)
    ensures
        a.major < b.major ==> precedes(a, b) && !precedes(b, a),
        a.major == b.major && a.minor < b.minor ==> precedes(a, b) && !precedes(b, a),
        a.major == b.major && a.minor == b.minor && a.patch < b.patch ==> precedes(a, b)
            && !precedes(b, a),
        a.major == b.major && a.minor == b.minor && a.patch == b.patch && a.pre.len() > 0
            && b.pre.len() == 0 ==> precedes(a, b) && !precedes(b, a),
{
}

/// White space around a version or a request does not matter; a blank one is refused.
pub proof fn blanks_around_do_not_matter(a: Seq<char>, b: Seq<char>)
    requires
        text::trimmed(a) == text::trimmed(b),
    ensures
        read_version(a) is Ok <==> read_version(b) is Ok,
        read_version(a) is Ok ==> read_version(a) == read_version(b),
        read_matcher(a) is Ok <==> read_matcher(b) is Ok,
        read_matcher(a) is Ok ==> read_matcher(a) == read_matcher(b),
        text::trimmed(a).len() == 0 ==> read_version(a) == Err::<VersionView, Seq<char>>(
            "version cannot be empty"@,
        ),
        text::trimmed(a).len() == 0 ==> read_matcher(a) == Err::<MatcherView, Seq<char>>(
            "version requirement cannot be empty"@,
        ),
{
}

/// A version that semver reads is read so; only where it reads none, missing numbers
/// are filled in, one zero for each, before a pre-release or build.
pub proof fn missing_numbers_are_zeros(input: Seq<char>)
    ensures
        ({
            let s = text::trimmed(input);
            let i = suffix_start(s);
            let pieces = text::split(s.take(i), '.').len();
            &&& s.len() > 0 && parsed(s) is Some ==> read_version(input) == Ok::<
                VersionView,
                Seq<char>,
            >(parsed(s)->0)
            &&& s.len() > 0 && parsed(s) is None && pieces == 1 && parsed(
                s.take(i) + ".0.0"@ + s.skip(i),
            ) is Some ==> read_version(input) == Ok::<VersionView, Seq<char>>(
                parsed(s.take(i) + ".0.0"@ + s.skip(i))->0,
            )
            &&& s.len() > 0 && parsed(s) is None && pieces == 2 && parsed(
                s.take(i) + ".0"@ + s.skip(i),
            ) is Some ==> read_version(input) == Ok::<VersionView, Seq<char>>(
                parsed(s.take(i) + ".0"@ + s.skip(i))->0,
            )
            &&& s.len() > 0 && parsed(s) is None && pieces > 2 ==> read_version(input) == Err::<
                VersionView,
                Seq<char>,
            >("version '"@ + input + "' is not valid semver"@)
        }),
{
}

proof fn lemma_suffix(s: Seq<char>)
    ensures
        0 <= suffix_start(s) <= s.len(),
        forall|j: int| 0 <= j < suffix_start(s) ==> #[trigger] s[j] != '-' && s[j] != '+',
        suffix_start(s) < s.len() ==> s[suffix_start(s)] == '-' || s[suffix_start(s)] == '+',
    decreases s.len(),
{
    if s.len() > 0 && s[0] != '-' && s[0] != '+' {
        let rest = s.drop_first();
        lemma_suffix(rest);
        assert forall|j: int| 0 <= j < suffix_start(s) implies #[trigger] s[j] != '-' && s[j]
            != '+' by {
            if j > 0 {
                assert(rest[j - 1] == s[j]);
            }
        }
        if suffix_start(s) < s.len() {
            assert(rest[suffix_start(rest)] == s[suffix_start(s)]);
        }
    }
}

/// What follows the numbers of a version begins at the first `-` or `+`.
pub proof fn suffixes_begin_at_a_sign(s: Seq<char>)
    ensures
        0 <= suffix_start(s) <= s.len(),
        forall|j: int| 0 <= j < suffix_start(s) ==> #[trigger] s[j] != '-' && s[j] != '+',
        suffix_start(s) < s.len() ==> s[suffix_start(s)] == '-' || s[suffix_start(s)] == '+',
{
    lemma_suffix(s);
}

/// A request without an operator wants one version and no other; one with an
/// operator is a requirement of semver, and wants what semver says it does.
pub proof fn operators_make_requirements(input: Seq<char>, v: VersionView)
    ensures
        ({
            let s = text::trimmed(input);
            let plain = !s.contains('^') && !s.contains('~') && !s.contains('*') && !s.contains('>')
                && !s.contains('<') && !s.contains('=') && !s.contains(',');
            &&& plain ==> (read_matcher(input) matches Ok(m) ==> m matches MatcherView::Exact(w)
                && read_version(s) == Ok::<VersionView, Seq<char>>(w) && (wanted(m, v) <==> v == w))
            &&& plain && s.len() > 0 ==> (read_matcher(input) is Ok <==> read_version(s) is Ok)
            &&& !plain && s.len() > 0 ==> (read_matcher(input) is Ok <==> semver_requirement(s))
            &&& !plain ==> (read_matcher(input) matches Ok(m) ==> m == MatcherView::Requirement(s)
                && (wanted(m, v) <==> semver_matches(s, v.major, v.minor, v.patch, v.pre)))
        }),
{
    let s = text::trimmed(input);
    if has_operator(s) {
        let i = choose|i: int| 0 <= i < s.len() && is_operator(#[trigger] s[i]);
        assert(s.contains(s[i]));
    } else {
        assert forall|c: char| is_operator(c) implies !s.contains(c) by {
            if s.contains(c) {
                let i = choose|i: int| 0 <= i < s.len() && s[i] == c;
                assert(is_operator(s[i]));
            }
        }
        assert(is_operator('^') && is_operator('~') && is_operator('*') && is_operator('>')
            && is_operator('<') && is_operator('=') && is_operator(','));
    }
}

}
