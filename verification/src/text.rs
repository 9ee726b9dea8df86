//! Text as a sequence of characters: trimming, splitting, joining, ordering.
use vstd::prelude::*;
use vstd::string::*;

verus! {

broadcast use vstd::string::group_string_axioms;

// ---------------------------------------------------------------------------
// Model
// ---------------------------------------------------------------------------

/// The texts of a list of strings.
pub open spec fn texts(list: Seq<String>) -> Seq<Seq<char>> {
    list.map_values(|s: String| s@)
}

/// The text of an optional string.
pub open spec fn opt_text(value: Option<String>) -> Option<Seq<char>> {
    match value {
        Some(s) => Some(s@),
        None => None,
    }
}

/// The characters that Unicode calls white space.
pub open spec fn is_white(c: char) -> bool {
    let code = c as u32;
    ||| 0x9 <= code <= 0xd
    ||| code == 0x20
    ||| code == 0x85
    ||| code == 0xa0
    ||| code == 0x1680
    ||| 0x2000 <= code <= 0x200a
    ||| code == 0x2028
    ||| code == 0x2029
    ||| code == 0x202f
    ||| code == 0x205f
    ||| code == 0x3000
}

/// `s` without the white space in front.
pub open spec fn trimmed_start(s: Seq<char>) -> Seq<char>
    decreases s.len(),
{
    if s.len() > 0 && is_white(s[0]) {
        trimmed_start(s.drop_first())
    } else {
        s
    }
}

/// `s` without the white space at its end.
pub open spec fn trimmed_end(s: Seq<char>) -> Seq<char>
    decreases s.len(),
{
    if s.len() > 0 && is_white(s.last()) {
        trimmed_end(s.drop_last())
    } else {
        s
    }
}

/// `s` without white space on either side.
pub open spec fn trimmed(s: Seq<char>) -> Seq<char> {
    trimmed_end(trimmed_start(s))
}

/// `s` without the copies of `c` in front.
pub open spec fn stripped_start(s: Seq<char>, c: char) -> Seq<char>
    decreases s.len(),
{
    if s.len() > 0 && s[0] == c {
        stripped_start(s.drop_first(), c)
    } else {
        s
    }
}

/// `s` without the copies of `c` at its end.
pub open spec fn stripped_end(s: Seq<char>, c: char) -> Seq<char>
    decreases s.len(),
{
    if s.len() > 0 && s.last() == c {
        stripped_end(s.drop_last(), c)
    } else {
        s
    }
}

/// `s` without the copies of `c` on either side.
pub open spec fn stripped(s: Seq<char>, c: char) -> Seq<char> {
    stripped_end(stripped_start(s, c), c)
}

/// The lower case of an ASCII letter; any other character is kept.
pub open spec fn lower_char(c: char) -> char {
    if 'A' <= c && c <= 'Z' {
        ((c as u32) + 32) as char
    } else {
        c
    }
}

/// `s` with its ASCII letters in lower case.
pub open spec fn lowered(s: Seq<char>) -> Seq<char> {
    s.map_values(|c: char| lower_char(c))
}

/// `s` with every `from` replaced by `to`.
pub open spec fn replaced(s: Seq<char>, from: char, to: Seq<char>) -> Seq<char>
    decreases s.len(),
{
    if s.len() == 0 {
        Seq::empty()
    } else if s.last() == from {
        replaced(s.drop_last(), from, to) + to
    } else {
        replaced(s.drop_last(), from, to).push(s.last())
    }
}

/// `part` occurs in `s`.
pub open spec fn has_text(s: Seq<char>, part: Seq<char>) -> bool {
    exists|i: int| occurs_at(s, part, i)
}

/// `part` occurs in `s` at position `i`.
pub open spec fn occurs_at(s: Seq<char>, part: Seq<char>, i: int) -> bool {
    0 <= i <= s.len() - part.len() && s.subrange(i, i + part.len()) == part
}

/// `list` with `sep` between its items.
pub open spec fn joined(list: Seq<Seq<char>>, sep: Seq<char>) -> Seq<char>
    decreases list.len(),
{
    if list.len() == 0 {
        Seq::empty()
    } else if list.len() == 1 {
        list[0]
    } else {
        joined(list.drop_last(), sep) + sep + list.last()
    }
}

/// The position of the first `c` in `s`, or the length of `s`.
pub open spec fn position(s: Seq<char>, c: char) -> int
    decreases s.len(),
{
    if s.len() == 0 || s[0] == c {
        0
    } else {
        1 + position(s.drop_first(), c)
    }
}

/// The pieces of `s` between the copies of `sep`.
pub open spec fn split(s: Seq<char>, sep: char) -> Seq<Seq<char>>
    decreases s.len(),
{
    let i = position(s, sep);
    if 0 <= i < s.len() {
        seq![s.take(i)] + split(s.skip(i + 1), sep)
    } else {
        seq![s]
    }
}

/// How many characters in front of `s` are not white space.
pub open spec fn word_len(s: Seq<char>) -> nat
    decreases s.len(),
{
    if s.len() == 0 || is_white(s[0]) {
        0
    } else {
        1 + word_len(s.drop_first())
    }
}

/// The pieces of `s` between stretches of white space.
pub open spec fn words(s: Seq<char>) -> Seq<Seq<char>>
    decreases s.len(),
{
    if s.len() == 0 {
        Seq::empty()
    } else if is_white(s[0]) {
        words(s.drop_first())
    } else {
        let n = word_len(s) as int;
        if 0 < n <= s.len() {
            seq![s.take(n)] + words(s.skip(n))
        } else {
            Seq::empty()
        }
    }
}

/// `a` comes before `b` in the order of their characters' code points.
pub open spec fn text_lt(a: Seq<char>, b: Seq<char>) -> bool
    decreases a.len(),
{
    if b.len() == 0 {
        false
    } else if a.len() == 0 {
        true
    } else if a[0] != b[0] {
        a[0] < b[0]
    } else {
        text_lt(a.drop_first(), b.drop_first())
    }
}

/// `list` with `value`, unless that is in it already.
pub open spec fn with_unique(list: Seq<Seq<char>>, value: Seq<char>) -> Seq<Seq<char>> {
    if list.contains(value) {
        list
    } else {
        list.push(value)
    }
}

/// Every item of `list` between `before` and `after`.
pub open spec fn each(list: Seq<Seq<char>>, before: Seq<char>, after: Seq<char>) -> Seq<Seq<char>> {
    list.map_values(|s: Seq<char>| before + s + after)
}

/// The lists that `f` makes of the items of `list`, one after the other.
pub open spec fn gathered<A>(list: Seq<A>, f: spec_fn(A) -> Seq<Seq<char>>) -> Seq<Seq<char>>
    decreases list.len(),
{
    if list.len() == 0 {
        Seq::empty()
    } else {
        gathered(list.drop_last(), f) + f(list.last())
    }
}

/// The character of a decimal digit.
pub open spec fn digit_char(d: nat) -> char {
    ((48 + d) as u32) as char
}

/// `n` in decimal digits.
pub open spec fn decimal(n: nat) -> Seq<char>
    decreases n,
{
    if n < 10 {
        seq![digit_char(n)]
    } else {
        decimal(n / 10).push(digit_char(n % 10))
    }
}

// ---------------------------------------------------------------------------
// The order of texts
// ---------------------------------------------------------------------------

pub proof fn lemma_text_lt_irreflexive(a: Seq<char>)
    ensures
        !text_lt(a, a),
    decreases a.len(),
{
    if a.len() > 0 {
        lemma_text_lt_irreflexive(a.drop_first());
    }
}

pub proof fn lemma_text_lt_transitive(a: Seq<char>, b: Seq<char>, c: Seq<char>)
    requires
        text_lt(a, b),
        text_lt(b, c),
    ensures
        text_lt(a, c),
    decreases a.len(),
{
    if a.len() > 0 && a[0] == b[0] && b[0] == c[0] {
        lemma_text_lt_transitive(a.drop_first(), b.drop_first(), c.drop_first());
    }
}

pub proof fn lemma_text_lt_total(a: Seq<char>, b: Seq<char>)
    ensures
        a == b || text_lt(a, b) || text_lt(b, a),
    decreases a.len(),
{
    if a.len() == 0 && b.len() == 0 {
        assert(a =~= b);
    } else if a.len() > 0 && b.len() > 0 && a[0] == b[0] {
        lemma_text_lt_total(a.drop_first(), b.drop_first());
        if a.drop_first() == b.drop_first() {
            assert(a =~= seq![a[0]] + a.drop_first());
            assert(b =~= seq![b[0]] + b.drop_first());
        }
    }
}

// ---------------------------------------------------------------------------
// From strings to characters and back
// ---------------------------------------------------------------------------

/// `String::push` appends one character.
pub assume_specification[ String::push ](s: &mut String, c: char)
    ensures
        final(s)@ == old(s)@.push(c),
;

/// The characters of `s`.
pub fn chars_of(s: &str) -> (r: Vec<char>)
    ensures
        r@ == s@,
{
    let mut out: Vec<char> = Vec::new();
    for c in iter: s.chars()
        invariant
            out@ == s@.take(iter.index() as int),
            iter.seq() == s@,
    {
        out.push(c);
    }
    assert(s@.take(s@.len() as int) == s@);
    out
}

/// The text of the characters of `v` from `from` up to `to`.
pub fn text_of(v: &Vec<char>, from: usize, to: usize) -> (r: String)
    requires
        from <= to <= v@.len(),
    ensures
        r@ == v@.subrange(from as int, to as int),
{
    let mut out: String = String::new();
    let mut i: usize = from;
    while i < to
        invariant
            from <= i <= to <= v@.len(),
            out@ == v@.subrange(from as int, i as int),
        decreases to - i,
    {
        out.push(v[i]);
        i += 1;
    }
    out
}

/// Whether two texts are equal.
pub fn same_text(a: &str, b: &str) -> (r: bool)
    ensures
        r == (a@ == b@),
{
    a.to_owned() == b.to_owned()
}

/// A copy of a list of strings.
pub fn copied_texts(list: &Vec<String>) -> (r: Vec<String>)
    ensures
        r@ == list@,
{
    let r = list.clone();
    assert(r@ =~= list@);
    r
}

/// The text in `value`, if there is one.
pub fn opt_str(value: &Option<String>) -> (r: Option<&str>)
    ensures
        (match r {
            Some(s) => Some(s@),
            None => None,
        }) == opt_text(*value),
{
    match value {
        Some(s) => Some(s.as_str()),
        None => None,
    }
}

/// A copy of an optional string.
pub fn copied_opt(value: &Option<String>) -> (r: Option<String>)
    ensures
        r == *value,
{
    match value {
        Some(s) => Some(s.clone()),
        None => None,
    }
}

/// Whether two lists hold the same texts.
pub fn same_texts(a: &Vec<String>, b: &Vec<String>) -> (r: bool)
    ensures
        r == (texts(a@) == texts(b@)),
{
    if a.len() != b.len() {
        assert(texts(a@).len() != texts(b@).len());
        return false;
    }
    let mut i: usize = 0;
    while i < a.len()
        invariant
            i <= a@.len() == b@.len(),
            forall|j: int| 0 <= j < i ==> a@[j]@ == b@[j]@,
        decreases a.len() - i,
    {
        if a[i] != b[i] {
            assert(texts(a@)[i as int] != texts(b@)[i as int]);
            return false;
        }
        i += 1;
    }
    assert(texts(a@) =~= texts(b@));
    true
}

/// Whether two optional texts are equal.
pub fn same_opt(a: &Option<String>, b: &Option<String>) -> (r: bool)
    ensures
        r == (opt_text(*a) == opt_text(*b)),
{
    match (a, b) {
        (Some(x), Some(y)) => *x == *y,
        (None, None) => true,
        _ => false,
    }
}

// ---------------------------------------------------------------------------
// Trimming
// ---------------------------------------------------------------------------

/// Whether `c` is white space.
pub fn white(c: char) -> (r: bool)
    ensures
        r == is_white(c),
{
    let code: u32 = c as u32;
    (0x9 <= code && code <= 0xd) || code == 0x20 || code == 0x85 || code == 0xa0 || code == 0x1680
        || (0x2000 <= code && code <= 0x200a) || code == 0x2028 || code == 0x2029 || code == 0x202f
        || code == 0x205f || code == 0x3000
}

/// Text without white space on either side.
pub fn trim(s: &str) -> (r: String)
    ensures
        r@ == trimmed(s@),
{
    let v = chars_of(s);
    let ghost all = s@;
    let mut i: usize = 0;
    assert(all.skip(0) == all);
    while i < v.len() && white(v[i])
        invariant
            v@ == all,
            i <= v@.len(),
            trimmed_start(all) == trimmed_start(all.skip(i as int)),
        decreases v.len() - i,
    {
        assert(all.skip(i as int).drop_first() == all.skip(i + 1));
        i += 1;
    }
    let ghost front = all.skip(i as int);
    assert(trimmed_start(all) == front);
    let mut j: usize = v.len();
    assert(front.take(v@.len() - i) == front);
    while i < j && white(v[j - 1])
        invariant
            v@ == all,
            i <= j <= v@.len(),
            front == all.skip(i as int),
            trimmed_end(front) == trimmed_end(front.take(j - i)),
        decreases j,
    {
        assert(front.take(j - i).drop_last() == front.take(j - i - 1));
        j -= 1;
    }
    assert(front.take(j - i) == all.subrange(i as int, j as int));
    text_of(&v, i, j)
}

/// Whether nothing is left of `s` when it is trimmed.
pub fn blank(s: &str) -> (r: bool)
    ensures
        r == (trimmed(s@).len() == 0),
{
    trim(s).as_str().is_empty()
}

/// Text without copies of `c` on either side.
pub fn strip_char(s: &str, c: char) -> (r: String)
    ensures
        r@ == stripped(s@, c),
{
    let v = chars_of(s);
    let ghost all = s@;
    let mut i: usize = 0;
    assert(all.skip(0) == all);
    while i < v.len() && v[i] == c
        invariant
            v@ == all,
            i <= v@.len(),
            stripped_start(all, c) == stripped_start(all.skip(i as int), c),
        decreases v.len() - i,
    {
        assert(all.skip(i as int).drop_first() == all.skip(i + 1));
        i += 1;
    }
    let ghost front = all.skip(i as int);
    let mut j: usize = v.len();
    assert(front.take(v@.len() - i) == front);
    while i < j && v[j - 1] == c
        invariant
            v@ == all,
            i <= j <= v@.len(),
            front == all.skip(i as int),
            stripped_end(front, c) == stripped_end(front.take(j - i), c),
        decreases j,
    {
        assert(front.take(j - i).drop_last() == front.take(j - i - 1));
        j -= 1;
    }
    assert(front.take(j - i) == all.subrange(i as int, j as int));
    text_of(&v, i, j)
}

/// Text without copies of `c` at its end.
pub fn strip_char_end(s: &str, c: char) -> (r: String)
    ensures
        r@ == stripped_end(s@, c),
{
    let v = chars_of(s);
    let ghost all = s@;
    let mut j: usize = v.len();
    assert(all.take(v@.len() as int) == all);
    while 0 < j && v[j - 1] == c
        invariant
            v@ == all,
            j <= v@.len(),
            stripped_end(all, c) == stripped_end(all.take(j as int), c),
        decreases j,
    {
        assert(all.take(j as int).drop_last() == all.take(j - 1));
        j -= 1;
    }
    assert(all.take(j as int) == all.subrange(0, j as int));
    text_of(&v, 0, j)
}

// ---------------------------------------------------------------------------
// Case, replacement and search
// ---------------------------------------------------------------------------

fn lower(c: char) -> (r: char)
    ensures
        r == lower_char(c),
{
    match c {
        'A' => 'a', 'B' => 'b', 'C' => 'c', 'D' => 'd', 'E' => 'e', 'F' => 'f', 'G' => 'g',
        'H' => 'h', 'I' => 'i', 'J' => 'j', 'K' => 'k', 'L' => 'l', 'M' => 'm', 'N' => 'n',
        'O' => 'o', 'P' => 'p', 'Q' => 'q', 'R' => 'r', 'S' => 's', 'T' => 't', 'U' => 'u',
        'V' => 'v', 'W' => 'w', 'X' => 'x', 'Y' => 'y', 'Z' => 'z',
        _ => c,
    }
}

/// Text with its ASCII letters in lower case.
pub fn to_lower(s: &str) -> (r: String)
    ensures
        r@ == lowered(s@),
{
    let mut out: String = String::new();
    for c in iter: s.chars()
        invariant
            out@ == lowered(s@.take(iter.index() as int)),
            iter.seq() == s@,
    {
        out.push(lower(c));
        assert(lowered(s@.take(iter.index() + 1)) == lowered(s@.take(iter.index() as int)).push(
            lower_char(c),
        ));
    }
    assert(s@.take(s@.len() as int) == s@);
    out
}

/// Whether two texts are equal when ASCII letters are compared without case.
pub fn same_ignoring_case(a: &str, b: &str) -> (r: bool)
    ensures
        r == (lowered(a@) == lowered(b@)),
{
    to_lower(a) == to_lower(b)
}

/// Text with every `from` replaced by `to`.
pub fn replace(s: &str, from: char, to: &str) -> (r: String)
    ensures
        r@ == replaced(s@, from, to@),
{
    let mut out: String = String::new();
    for c in iter: s.chars()
        invariant
            out@ == replaced(s@.take(iter.index() as int), from, to@),
            iter.seq() == s@,
    {
        if c == from {
            out.append(to);
        } else {
            out.push(c);
        }
        assert(s@.take(iter.index() + 1).drop_last() == s@.take(iter.index() as int));
    }
    assert(s@.take(s@.len() as int) == s@);
    out
}

/// Whether the character `c` occurs in `s`.
pub fn has_char(s: &str, c: char) -> (r: bool)
    ensures
        r == s@.contains(c),
{
    let v = chars_of(s);
    let mut i: usize = 0;
    while i < v.len()
        invariant
            v@ == s@,
            i <= v@.len(),
            forall|j: int| 0 <= j < i ==> v@[j] != c,
        decreases v.len() - i,
    {
        if v[i] == c {
            assert(s@[i as int] == c);
            return true;
        }
        i += 1;
    }
    false
}

fn matches_at(v: &Vec<char>, part: &Vec<char>, at: usize) -> (r: bool)
    requires
        at + part@.len() <= v@.len(),
    ensures
        r == (v@.subrange(at as int, at + part@.len()) == part@),
{
    let mut j: usize = 0;
    while j < part.len()
        invariant
            at + part@.len() <= v@.len(),
            j <= part@.len(),
            forall|k: int| 0 <= k < j ==> v@[at + k] == part@[k],
        decreases part.len() - j,
    {
        assert(at + j < v.len());
        if v[at + j] != part[j] {
            assert(v@.subrange(at as int, at + part@.len())[j as int] != part@[j as int]);
            return false;
        }
        j += 1;
    }
    assert(v@.subrange(at as int, at + part@.len()) =~= part@);
    true
}

/// Whether `part` occurs in `s`.
pub fn contains(s: &str, part: &str) -> (r: bool)
    ensures
        r == has_text(s@, part@),
{
    let v = chars_of(s);
    let p = chars_of(part);
    if p.len() > v.len() {
        return false;
    }
    let last: usize = v.len() - p.len();
    let mut i: usize = 0;
    loop
        invariant
            v@ == s@,
            p@ == part@,
            p@.len() <= v@.len(),
            last == v@.len() - p@.len(),
            i <= last,
            forall|j: int| 0 <= j < i ==> !occurs_at(s@, part@, j),
        decreases last - i,
    {
        if matches_at(&v, &p, i) {
            assert(occurs_at(s@, part@, i as int));
            return true;
        }
        assert(!occurs_at(s@, part@, i as int));
        if i == last {
            assert forall|j: int| !occurs_at(s@, part@, j) by {
                if 0 <= j < i {
                }
            }
            return false;
        }
        i += 1;
    }
}

/// Whether `s` begins with `part`.
pub fn starts_with(s: &str, part: &str) -> (r: bool)
    ensures
        r == part@.is_prefix_of(s@),
{
    let v = chars_of(s);
    let p = chars_of(part);
    p.len() <= v.len() && matches_at(&v, &p, 0)
}

/// Whether `s` ends with `part`.
pub fn ends_with(s: &str, part: &str) -> (r: bool)
    ensures
        r == part@.is_suffix_of(s@),
{
    let v = chars_of(s);
    let p = chars_of(part);
    p.len() <= v.len() && matches_at(&v, &p, v.len() - p.len())
}

/// What follows `part` at the beginning of `s`.
pub fn strip_prefix(s: &str, part: &str) -> (r: Option<String>)
    ensures
        r is Some <==> part@.is_prefix_of(s@),
        r matches Some(rest) ==> rest@ == s@.skip(part@.len() as int),
{
    let v = chars_of(s);
    let p = chars_of(part);
    if p.len() <= v.len() && matches_at(&v, &p, 0) {
        Some(text_of(&v, p.len(), v.len()))
    } else {
        None
    }
}

// ---------------------------------------------------------------------------
// Joining and splitting
// ---------------------------------------------------------------------------

/// The items of `list` with `sep` between them.
pub fn join(list: &Vec<String>, sep: &str) -> (r: String)
    ensures
        r@ == joined(texts(list@), sep@),
{
    let mut out: String = String::new();
    let ghost all = texts(list@);
    let mut i: usize = 0;
    while i < list.len()
        invariant
            i <= list@.len(),
            all == texts(list@),
            out@ == joined(all.take(i as int), sep@),
        decreases list.len() - i,
    {
        if i > 0 {
            out.append(sep);
        }
        out.append(list[i].as_str());
        assert(all.take(i + 1).drop_last() == all.take(i as int));
        assert(all.take(i + 1).last() == list@[i as int]@);
        i += 1;
    }
    assert(all.take(list@.len() as int) == all);
    out
}

pub proof fn lemma_position(s: Seq<char>, c: char)
    ensures
        0 <= position(s, c) <= s.len(),
        position(s, c) < s.len() ==> s[position(s, c)] == c,
        forall|j: int| 0 <= j < position(s, c) ==> s[j] != c,
        s.contains(c) <==> position(s, c) < s.len(),
    decreases s.len(),
{
    if s.len() > 0 && s[0] != c {
        let rest = s.drop_first();
        lemma_position(rest, c);
        assert forall|j: int| 0 <= j < position(s, c) implies s[j] != c by {
            if j > 0 {
                assert(s[j] == rest[j - 1]);
            }
        }
        if s.contains(c) {
            let k = choose|k: int| 0 <= k < s.len() && s[k] == c;
            assert(rest[k - 1] == c);
        }
        if position(s, c) < s.len() {
            assert(s[position(s, c)] == rest[position(rest, c)]);
        }
    }
}

proof fn lemma_position_is(s: Seq<char>, c: char, i: int)
    requires
        0 <= i <= s.len(),
        forall|j: int| 0 <= j < i ==> s[j] != c,
        i < s.len() ==> s[i] == c,
    ensures
        position(s, c) == i,
{
    lemma_position(s, c);
}

/// The position of the first `c` in `v` from `from` on, or the length of `v`.
pub fn find_char(v: &Vec<char>, c: char, from: usize) -> (r: usize)
    requires
        from <= v@.len(),
    ensures
        from <= r <= v@.len(),
        r == from + position(v@.skip(from as int), c),
{
    let mut i: usize = from;
    while i < v.len() && v[i] != c
        invariant
            from <= i <= v@.len(),
            forall|j: int| from <= j < i ==> v@[j] != c,
        decreases v.len() - i,
    {
        i += 1;
    }
    proof {
        lemma_position_is(v@.skip(from as int), c, i - from);
    }
    i
}

/// The pieces of `s` between the copies of `sep`.
pub fn split_on(s: &str, sep: char) -> (r: Vec<String>)
    ensures
        texts(r@) == split(s@, sep),
{
    let v = chars_of(s);
    let ghost all = s@;
    let mut out: Vec<String> = Vec::new();
    let mut start: usize = 0;
    assert(all.skip(0) == all);
    loop
        invariant
            all == s@,
            v@ == all,
            start <= v@.len(),
            split(all, sep) == texts(out@) + split(all.skip(start as int), sep),
        decreases v.len() - start,
    {
        let end = find_char(&v, sep, start);
        let ghost rest = all.skip(start as int);
        let ghost before = texts(out@);
        proof {
            lemma_position(rest, sep);
        }
        out.push(text_of(&v, start, end));
        assert(texts(out@) == before.push(rest.take(end - start))) by {
            assert(all.subrange(start as int, end as int) == rest.take(end - start));
        }
        if end == v.len() {
            assert(rest.take(end - start) == rest);
            assert(texts(out@) =~= before + seq![rest]);
            return out;
        }
        assert(rest.skip(end - start + 1) == all.skip(end + 1));
        assert(before + (seq![rest.take(end - start)] + split(all.skip(end + 1), sep)) =~= texts(
            out@,
        ) + split(all.skip(end + 1), sep));
        start = end + 1;
    }
}

proof fn lemma_word_len(s: Seq<char>, n: int)
    requires
        0 <= n <= s.len(),
        forall|j: int| 0 <= j < n ==> !is_white(s[j]),
        n < s.len() ==> is_white(s[n]),
    ensures
        word_len(s) == n,
    decreases n,
{
    if n > 0 {
        let rest = s.drop_first();
        assert forall|j: int| 0 <= j < n - 1 implies !is_white(rest[j]) by {
            assert(rest[j] == s[j + 1]);
        }
        lemma_word_len(rest, n - 1);
    }
}

/// The pieces of `s` between stretches of white space.
pub fn split_words(s: &str) -> (r: Vec<String>)
    ensures
        texts(r@) == words(s@),
{
    let v = chars_of(s);
    let ghost all = s@;
    let mut out: Vec<String> = Vec::new();
    let mut i: usize = 0;
    assert(all.skip(0) == all);
    assert(texts(out@) + words(all) =~= words(all));
    while i < v.len()
        invariant
            v@ == all,
            i <= v@.len(),
            words(all) == texts(out@) + words(all.skip(i as int)),
        decreases v.len() - i,
    {
        let ghost rest = all.skip(i as int);
        if white(v[i]) {
            assert(rest.drop_first() == all.skip(i + 1));
            i += 1;
        } else {
            let start: usize = i;
            while i < v.len() && !white(v[i])
                invariant
                    v@ == all,
                    start <= i <= v@.len(),
                    start < v@.len(),
                    !is_white(v@[start as int]),
                    forall|j: int| start <= j < i ==> !is_white(v@[j]),
                ensures
                    start < i <= v@.len(),
                    forall|j: int| start <= j < i ==> !is_white(v@[j]),
                    i < v@.len() ==> is_white(v@[i as int]),
                decreases v.len() - i,
            {
                i += 1;
            }
            let ghost before = texts(out@);
            proof {
                lemma_word_len(rest, i - start);
            }
            out.push(text_of(&v, start, i));
            assert(all.subrange(start as int, i as int) == rest.take(i - start));
            assert(texts(out@) =~= before.push(rest.take(i - start)));
            assert(rest.skip(i - start) == all.skip(i as int));
            assert(before + (seq![rest.take(i - start)] + words(all.skip(i as int))) =~= texts(out@)
                + words(all.skip(i as int)));
        }
    }
    assert(all.skip(v@.len() as int).len() == 0);
    assert(texts(out@) + Seq::<Seq<char>>::empty() =~= texts(out@));
    out
}

/// Adds a text to a list.
pub fn push_text(target: &mut Vec<String>, value: &str)
    ensures
        texts(final(target)@) == texts(old(target)@).push(value@),
{
    let ghost before = texts(target@);
    target.push(value.to_owned());
    assert(texts(target@) =~= before.push(value@));
}

/// Adds all texts of another list to a list.
pub fn push_texts(target: &mut Vec<String>, more: &Vec<String>)
    ensures
        texts(final(target)@) == texts(old(target)@) + texts(more@),
{
    let ghost before = texts(target@);
    let mut i: usize = 0;
    assert(texts(target@) =~= before + texts(more@).take(0));
    while i < more.len()
        invariant
            i <= more@.len(),
            texts(target@) == before + texts(more@).take(i as int),
        decreases more.len() - i,
    {
        push_text(target, more[i].as_str());
        assert(texts(target@) =~= before + texts(more@).take(i + 1));
        i += 1;
    }
    assert(texts(more@).take(more@.len() as int) == texts(more@));
}

/// The items of a list, each between `before` and `after`.
pub fn wrap_each(list: &Vec<String>, before: &str, after: &str) -> (r: Vec<String>)
    ensures
        texts(r@) == each(texts(list@), before@, after@),
{
    let mut out: Vec<String> = Vec::new();
    let mut i: usize = 0;
    while i < list.len()
        invariant
            i <= list@.len(),
            out@.len() == i,
            forall|j: int| 0 <= j < i ==> #[trigger] out@[j]@ == before@ + list@[j]@ + after@,
        decreases list.len() - i,
    {
        let mut item = before.to_owned();
        item.append(list[i].as_str());
        item.append(after);
        out.push(item);
        i += 1;
    }
    assert(texts(out@) =~= each(texts(list@), before@, after@));
    out
}

/// Adds a text to a list, unless it is in it already.
pub fn push_unique(target: &mut Vec<String>, value: String)
    ensures
        texts(final(target)@) == with_unique(texts(old(target)@), value@),
{
    let ghost before = texts(target@);
    let mut i: usize = 0;
    while i < target.len()
        invariant
            target@ == old(target)@,
            before == texts(target@),
            i <= target@.len(),
            forall|j: int| 0 <= j < i ==> before[j] != value@,
        decreases target.len() - i,
    {
        if target[i] == value {
            assert(before[i as int] == value@);
            return;
        }
        i += 1;
    }
    assert(!before.contains(value@));
    let ghost v = value@;
    target.push(value);
    assert(texts(target@) =~= before.push(v));
}

/// Adding to a list in this way keeps its items distinct.
pub proof fn unique_stays_unique(list: Seq<Seq<char>>, value: Seq<char>)
    requires
        list.no_duplicates(),
    ensures
        with_unique(list, value).no_duplicates(),
        with_unique(list, value).contains(value),
        list.is_prefix_of(with_unique(list, value)),
{
    if !list.contains(value) {
        assert(list.push(value)[list.len() as int] == value);
        assert(list.push(value).subrange(0, list.len() as int) =~= list);
    } else {
        assert(list.subrange(0, list.len() as int) =~= list);
    }
}

// ---------------------------------------------------------------------------
// Order and numbers
// ---------------------------------------------------------------------------

/// Whether `a` comes before `b`.
pub fn text_before(a: &str, b: &str) -> (r: bool)
    ensures
        r == text_lt(a@, b@),
{
    let x = chars_of(a);
    let y = chars_of(b);
    let mut i: usize = 0;
    assert(a@.skip(0) == a@);
    assert(b@.skip(0) == b@);
    while i < x.len() && i < y.len()
        invariant
            x@ == a@,
            y@ == b@,
            i <= x@.len(),
            i <= y@.len(),
            text_lt(a@, b@) == text_lt(a@.skip(i as int), b@.skip(i as int)),
        decreases x.len() - i,
    {
        if x[i] != y[i] {
            return x[i] < y[i];
        }
        assert(a@.skip(i as int).drop_first() == a@.skip(i + 1));
        assert(b@.skip(i as int).drop_first() == b@.skip(i + 1));
        i += 1;
    }
    i < y.len()
}

fn digit(d: u64) -> (r: char)
    requires
        d < 10,
    ensures
        r == digit_char(d as nat),
{
    match d {
        0 => '0',
        1 => '1',
        2 => '2',
        3 => '3',
        4 => '4',
        5 => '5',
        6 => '6',
        7 => '7',
        8 => '8',
        _ => '9',
    }
}

/// `n` in decimal digits.
pub fn to_decimal(n: u64) -> (r: String)
    ensures
        r@ == decimal(n as nat),
    decreases n,
{
    if n < 10 {
        let mut out: String = String::new();
        out.push(digit(n));
        assert(out@ =~= decimal(n as nat));
        out
    } else {
        let mut out = to_decimal(n / 10);
        out.push(digit(n % 10));
        out
    }
}

/// A number is written with digits alone.
pub proof fn decimal_is_digits(n: nat)
    ensures
        decimal(n).len() > 0,
        forall|i: int| 0 <= i < decimal(n).len() ==> '0' <= #[trigger] decimal(n)[i] <= '9',
    decreases n,
{
    if n >= 10 {
        decimal_is_digits(n / 10);
    }
}

/// A text without the separator is one piece.
pub proof fn split_of_one_piece(s: Seq<char>, sep: char)
    requires
        !s.contains(sep),
    ensures
        split(s, sep) == seq![s],
{
    lemma_position(s, sep);
}

/// The first piece ends at the first separator.
pub proof fn split_of_more(a: Seq<char>, sep: char, b: Seq<char>)
    requires
        !a.contains(sep),
    ensures
        split(a + seq![sep] + b, sep) == seq![a] + split(b, sep),
{
    let s = a + seq![sep] + b;
    assert forall|j: int| 0 <= j < a.len() implies s[j] != sep by {
        assert(s[j] == a[j]);
        assert(a.contains(a[j]));
    }
    lemma_position_is(s, sep, a.len() as int);
    assert(s.take(a.len() as int) =~= a);
    assert(s.skip(a.len() as int + 1) =~= b);
}

/// Another piece at the end is split off as it is.
pub proof fn split_of_last_piece(a: Seq<char>, sep: char, b: Seq<char>)
    requires
        !b.contains(sep),
    ensures
        split(a + seq![sep] + b, sep) == split(a, sep).push(b),
    decreases a.len(),
{
    let i = position(a, sep);
    lemma_position(a, sep);
    if i < a.len() {
        let first = a.take(i);
        let rest = a.skip(i + 1);
        assert forall|j: int| 0 <= j < first.len() implies first[j] != sep by {}
        split_of_last_piece(rest, sep, b);
        assert(a + seq![sep] + b =~= first + seq![sep] + (rest + seq![sep] + b));
        split_of_more(first, sep, rest + seq![sep] + b);
        assert(split(a, sep) == seq![first] + split(rest, sep));
        assert(seq![first] + split(rest, sep).push(b) =~= (seq![first] + split(rest, sep)).push(b));
    } else {
        assert(!a.contains(sep));
        split_of_more(a, sep, b);
        split_of_one_piece(a, sep);
        split_of_one_piece(b, sep);
        assert(seq![a] + seq![b] =~= seq![a].push(b));
    }
}

/// What was joined is split into the same pieces.
pub proof fn split_of_joined(list: Seq<Seq<char>>, sep: char)
    requires
        list.len() > 0,
        forall|i: int| 0 <= i < list.len() ==> !(#[trigger] list[i]).contains(sep),
    ensures
        split(joined(list, seq![sep]), sep) == list,
    decreases list.len(),
{
    if list.len() == 1 {
        split_of_one_piece(list[0], sep);
        assert(list =~= seq![list[0]]);
    } else {
        let front = list.drop_last();
        assert forall|i: int| 0 <= i < front.len() implies !(#[trigger] front[i]).contains(sep) by {
            assert(front[i] == list[i]);
        }
        split_of_joined(front, sep);
        assert(!list[list.len() - 1].contains(sep));
        split_of_last_piece(joined(front, seq![sep]), sep, list.last());
        assert(front.push(list.last()) =~= list);
    }
}

/// The last piece of a text ends as the text does.
pub proof fn split_ends_as_the_text(s: Seq<char>, sep: char)
    requires
        s.len() > 0,
        s.last() != sep,
    ensures
        split(s, sep).len() > 0,
        split(s, sep).last().len() > 0,
        split(s, sep).last().last() == s.last(),
    decreases s.len(),
{
    let i = position(s, sep);
    lemma_position(s, sep);
    if i < s.len() {
        let rest = s.skip(i + 1);
        assert(s[i] == sep);
        assert(rest.len() > 0 && rest.last() == s.last());
        split_ends_as_the_text(rest, sep);
        assert(split(s, sep) == seq![s.take(i)] + split(rest, sep));
        assert(split(s, sep).last() == split(rest, sep).last());
    }
}

/// No piece of a split text holds the separator.
pub proof fn lemma_split_pieces(s: Seq<char>, sep: char)
    ensures
        forall|i: int|
            0 <= i < split(s, sep).len() ==> !(#[trigger] split(s, sep)[i]).contains(sep),
    decreases s.len(),
{
    let i = position(s, sep);
    lemma_position(s, sep);
    if i < s.len() {
        lemma_split_pieces(s.skip(i + 1), sep);
        assert forall|j: int| 0 <= j < s.take(i).len() implies s.take(i)[j] != sep by {}
        let rest = split(s.skip(i + 1), sep);
        assert forall|j: int| 0 <= j < split(s, sep).len() implies !(#[trigger] split(
            s,
            sep,
        )[j]).contains(sep) by {
            if j > 0 {
                assert(split(s, sep)[j] == rest[j - 1]);
            }
        }
    }
}

// ---------------------------------------------------------------------------
// Laws
// ---------------------------------------------------------------------------

/// Blanks, tabs, line ends and the wide and narrow blanks of Unicode are white space, and
/// no character of ASCII is that can be seen.
pub proof fn visible_characters_are_not_white(c: char)
    ensures
        c == ' ' || c == '\t' || c == '\n' || c == '\r' || c == '\u{b}' || c == '\u{c}' ==> is_white(c),
        c == '\u{85}' || c == '\u{a0}' || c == '\u{1680}' || c == '\u{2028}' || c == '\u{2029}' || c
            == '\u{202f}' || c == '\u{205f}' || c == '\u{3000}' ==> is_white(c),
        '\u{2000}' <= c && c <= '\u{200a}' ==> is_white(c),
        '!' <= c && c <= '~' ==> !is_white(c),
{
}

proof fn lemma_trimmed_start(s: Seq<char>)
    ensures
        trimmed_start(s).len() <= s.len(),
        trimmed_start(s) == s.skip(s.len() - trimmed_start(s).len()),
        forall|i: int| 0 <= i < s.len() - trimmed_start(s).len() ==> is_white(#[trigger] s[i]),
        trimmed_start(s).len() > 0 ==> !is_white(trimmed_start(s)[0]),
    decreases s.len(),
{
    if s.len() > 0 && is_white(s[0]) {
        let rest = s.drop_first();
        lemma_trimmed_start(rest);
        assert forall|i: int| 0 <= i < s.len() - trimmed_start(s).len() implies is_white(
            #[trigger] s[i],
        ) by {
            if i > 0 {
                assert(rest[i - 1] == s[i]);
            }
        }
        assert(rest.skip(rest.len() - trimmed_start(s).len()) =~= s.skip(
            s.len() - trimmed_start(s).len(),
        ));
    } else {
        assert(s.skip(0) =~= s);
    }
}

proof fn lemma_trimmed_end(s: Seq<char>)
    ensures
        trimmed_end(s).len() <= s.len(),
        trimmed_end(s) == s.take(trimmed_end(s).len() as int),
        forall|i: int| trimmed_end(s).len() <= i < s.len() ==> is_white(#[trigger] s[i]),
        trimmed_end(s).len() > 0 ==> !is_white(trimmed_end(s).last()),
    decreases s.len(),
{
    if s.len() > 0 && is_white(s.last()) {
        let rest = s.drop_last();
        lemma_trimmed_end(rest);
        assert forall|i: int| trimmed_end(s).len() <= i < s.len() implies is_white(
            #[trigger] s[i],
        ) by {
            if i < rest.len() {
                assert(rest[i] == s[i]);
            }
        }
        assert(rest.take(trimmed_end(s).len() as int) =~= s.take(trimmed_end(s).len() as int));
    } else {
        assert(s.take(s.len() as int) =~= s);
    }
}

/// Trimming cuts white space off both sides and nothing else, and leaves none there.
pub proof fn trimming_cuts_white_space_alone(s: Seq<char>)
    ensures
        exists|from: int|
            {
                &&& 0 <= from <= from + trimmed(s).len() <= s.len()
                &&& trimmed(s) == #[trigger] s.subrange(from, from + trimmed(s).len())
                &&& forall|i: int| 0 <= i < from ==> is_white(#[trigger] s[i])
                &&& forall|i: int| from + trimmed(s).len() <= i < s.len() ==> is_white(
                    #[trigger] s[i],
                )
            },
        trimmed(s).len() > 0 ==> !is_white(trimmed(s)[0]) && !is_white(trimmed(s).last()),
        s.len() > 0 && !is_white(s[0]) && !is_white(s.last()) ==> trimmed(s) == s,
{
    let t = trimmed_start(s);
    lemma_trimmed_start(s);
    lemma_trimmed_end(t);
    let from = s.len() - t.len();
    assert(trimmed(s) =~= s.subrange(from, from + trimmed(s).len()));
    assert forall|i: int| from + trimmed(s).len() <= i < s.len() implies is_white(#[trigger] s[i]) by {
        assert(t[i - from] == s[i]);
    }
    if trimmed(s).len() > 0 {
        assert(trimmed(s)[0] == t[0]);
    }
}

/// Lower case keeps the length, turns each capital letter into its small one, and
/// keeps every other character.
pub proof fn lower_case_is_letter_by_letter(s: Seq<char>, i: int)
    requires
        0 <= i < s.len(),
    ensures
        lowered(s).len() == s.len(),
        s[i] < 'A' || s[i] > 'Z' ==> lowered(s)[i] == s[i],
        'A' <= s[i] && s[i] <= 'Z' ==> lowered(s)[i] as u32 == s[i] as u32 + 32,
        lowered(lowered(s)) == lowered(s),
{
    assert(lowered(lowered(s)) =~= lowered(s));
}

/// Replacing a character goes through a text from one end to the other: what does
/// not hold it is kept, and each one that stands there is replaced.
pub proof fn replacing_is_piece_by_piece(a: Seq<char>, b: Seq<char>, from: char, to: Seq<char>)
    ensures
        replaced(a + b, from, to) == replaced(a, from, to) + replaced(b, from, to),
        !a.contains(from) ==> replaced(a, from, to) == a,
        replaced(seq![from], from, to) == to,
    decreases a.len() + b.len(),
{
    reveal_with_fuel(replaced, 2);
    assert(seq![from].drop_last() =~= Seq::empty());
    assert(Seq::<char>::empty() + to =~= to);
    if b.len() > 0 {
        replacing_is_piece_by_piece(a, b.drop_last(), from, to);
        assert((a + b).drop_last() =~= a + b.drop_last());
        assert((a + b).last() == b.last());
        if b.last() == from {
            assert(replaced(a, from, to) + replaced(b.drop_last(), from, to) + to =~= replaced(
                a,
                from,
                to,
            ) + (replaced(b.drop_last(), from, to) + to));
        } else {
            assert((replaced(a, from, to) + replaced(b.drop_last(), from, to)).push(b.last())
                =~= replaced(a, from, to) + replaced(b.drop_last(), from, to).push(b.last()));
        }
    } else {
        assert(a + b =~= a);
        assert(replaced(a, from, to) + replaced(b, from, to) =~= replaced(a, from, to));
        if a.len() > 0 {
            replacing_is_piece_by_piece(a.drop_last(), b, from, to);
            if !a.contains(from) {
                assert(a.last() != from) by {
                    assert(a[a.len() - 1] == a.last());
                }
                assert(!a.drop_last().contains(from)) by {
                    if a.drop_last().contains(from) {
                        let k = choose|k: int|
                            0 <= k < a.drop_last().len() && a.drop_last()[k] == from;
                        assert(a[k] == from);
                    }
                }
                assert(a.drop_last().push(a.last()) =~= a);
            }
        } else {
            assert(replaced(a, from, to) =~= a);
        }
    }
}

/// A longer text holds whatever a part of it holds.
pub proof fn parts_of_parts_are_held(
    before: Seq<char>,
    middle: Seq<char>,
    after: Seq<char>,
    part: Seq<char>,
)
    requires
        has_text(middle, part),
    ensures
        has_text(before + middle + after, part),
{
    let whole = before + middle + after;
    let i = choose|i: int| occurs_at(middle, part, i);
    let j = before.len() + i;
    assert(whole.subrange(j, j + part.len()) =~= middle.subrange(i, i + part.len()));
    assert(occurs_at(whole, part, j));
}

/// Every text holds itself.
pub proof fn texts_hold_themselves(s: Seq<char>)
    ensures
        has_text(s, s),
{
    assert(s.subrange(0, s.len() as int) =~= s);
    assert(occurs_at(s, s, 0));
}

/// What is joined stands there whole.
pub proof fn joined_items_are_held(list: Seq<Seq<char>>, sep: Seq<char>, i: int)
    requires
        0 <= i < list.len(),
    ensures
        has_text(joined(list, sep), list[i]),
    decreases list.len(),
{
    if list.len() == 1 {
        texts_hold_themselves(list[0]);
    } else {
        let front = list.drop_last();
        let before = joined(front, sep);
        let last = list.last();
        let nothing = Seq::<char>::empty();
        assert(joined(list, sep) == before + sep + last);
        if i == list.len() - 1 {
            texts_hold_themselves(last);
            parts_of_parts_are_held(before + sep, last, nothing, last);
            assert(before + sep + last + nothing =~= before + sep + last);
        } else {
            joined_items_are_held(front, sep, i);
            assert(front[i] == list[i]);
            parts_of_parts_are_held(nothing, before, sep + last, list[i]);
            assert(nothing + before + (sep + last) =~= before + sep + last);
        }
    }
}

/// Between two neighbours in what is joined stands the separator alone.
pub proof fn separators_stand_between_neighbours(list: Seq<Seq<char>>, sep: Seq<char>, i: int)
    requires
        0 <= i < list.len() - 1,
    ensures
        has_text(joined(list, sep), list[i] + sep + list[i + 1]),
    decreases list.len(),
{
    let front = list.drop_last();
    let before = joined(front, sep);
    let last = list.last();
    let nothing = Seq::<char>::empty();
    let pair = list[i] + sep + list[i + 1];
    assert(joined(list, sep) == before + sep + last);
    assert(front[i] == list[i]);
    if i + 1 < front.len() {
        separators_stand_between_neighbours(front, sep, i);
        assert(front[i + 1] == list[i + 1]);
        parts_of_parts_are_held(nothing, before, sep + last, pair);
        assert(nothing + before + (sep + last) =~= before + sep + last);
    } else {
        lemma_joined_ends(front, sep);
        let head = before.take(before.len() - list[i].len());
        assert(head + list[i] =~= before);
        lemma_end_is_held(head, list[i], sep, last);
    }
}

proof fn lemma_end_is_held(head: Seq<char>, a: Seq<char>, sep: Seq<char>, b: Seq<char>)
    ensures
        has_text(head + a + sep + b, a + sep + b),
{
    let whole = head + a + sep + b;
    let part = a + sep + b;
    assert(whole.len() == head.len() + part.len());
    assert(whole.subrange(head.len() as int, whole.len() as int) =~= part);
    assert(occurs_at(whole, part, head.len() as int));
}

proof fn lemma_joined_ends(list: Seq<Seq<char>>, sep: Seq<char>)
    requires
        list.len() > 0,
    ensures
        list.last().len() <= joined(list, sep).len(),
        joined(list, sep).skip(joined(list, sep).len() - list.last().len()) == list.last(),
{
    let all = joined(list, sep);
    assert(all.skip(all.len() - list.last().len()) =~= list.last());
}

/// What was split is the same text again when it is joined.
pub proof fn joined_pieces_are_the_text(s: Seq<char>, sep: char)
    ensures
        split(s, sep).len() > 0,
        joined(split(s, sep), seq![sep]) == s,
    decreases s.len(),
{
    let i = position(s, sep);
    lemma_position(s, sep);
    if i < s.len() {
        let rest = s.skip(i + 1);
        joined_pieces_are_the_text(rest, sep);
        lemma_joined_front(s.take(i), split(rest, sep), seq![sep]);
        assert(s.take(i) + seq![sep] + rest =~= s);
    }
}

proof fn lemma_joined_front(first: Seq<char>, list: Seq<Seq<char>>, sep: Seq<char>)
    requires
        list.len() > 0,
    ensures
        joined(seq![first] + list, sep) == first + sep + joined(list, sep),
    decreases list.len(),
{
    let all = seq![first] + list;
    if list.len() == 1 {
        assert(all.drop_last() =~= seq![first]);
        assert(joined(all.drop_last(), sep) == first);
    } else {
        lemma_joined_front(first, list.drop_last(), sep);
        assert(all.drop_last() =~= seq![first] + list.drop_last());
        assert(first + sep + joined(list.drop_last(), sep) + sep + list.last() =~= first + sep + (
        joined(list.drop_last(), sep) + sep + list.last()));
    }
}

proof fn lemma_word_end(s: Seq<char>)
    ensures
        word_len(s) <= s.len(),
        forall|i: int| 0 <= i < word_len(s) ==> !is_white(#[trigger] s[i]),
        word_len(s) < s.len() ==> is_white(s[word_len(s) as int]),
    decreases s.len(),
{
    if s.len() > 0 && !is_white(s[0]) {
        let rest = s.drop_first();
        lemma_word_end(rest);
        assert forall|i: int| 0 <= i < word_len(s) implies !is_white(#[trigger] s[i]) by {
            if i > 0 {
                assert(rest[i - 1] == s[i]);
            }
        }
        if word_len(s) < s.len() {
            assert(rest[word_len(rest) as int] == s[word_len(s) as int]);
        }
    }
}

/// A word ends at the first white space, white space in front is passed over, and
/// a text of white space has no words.
pub proof fn words_stand_between_white_space(word: Seq<char>, gap: char, rest: Seq<char>)
    requires
        is_white(gap),
        forall|i: int| 0 <= i < word.len() ==> !is_white(#[trigger] word[i]),
    ensures
        words(seq![gap] + rest) == words(rest),
        word.len() > 0 ==> words(word) == seq![word],
        word.len() > 0 ==> words(word + seq![gap] + rest) == seq![word] + words(rest),
        words(Seq::empty()).len() == 0,
{
    assert((seq![gap] + rest).drop_first() =~= rest);
    reveal_with_fuel(words, 2);
    if word.len() > 0 {
        assert(!is_white(word[0]));
        let s = word + seq![gap] + rest;
        lemma_word_end(s);
        lemma_word_end(word);
        assert(s[0] == word[0]);
        let n = word_len(s) as int;
        if n < word.len() {
            assert(s[n] == word[n]);
        } else if n > word.len() {
            assert(s[word.len() as int] == gap);
        }
        assert(s.take(n) =~= word);
        assert(s.skip(n) =~= seq![gap] + rest);
        assert(words(s) =~= seq![word] + words(rest));
        let m = word_len(word) as int;
        if m < word.len() {
            assert(!is_white(word[m]));
        }
        assert(word.take(m) =~= word);
        assert(word.skip(m) =~= Seq::empty());
        assert(words(word) =~= seq![word]);
    }
}

/// Different numbers are written differently, and a number below ten is its digit.
pub proof fn numbers_are_told_apart(a: nat, b: nat)
    ensures
        decimal(a) == decimal(b) ==> a == b,
        a < 10 ==> decimal(a).len() == 1 && decimal(a)[0] as u32 == '0' as u32 + a,
    decreases a,
{
    decimal_is_digits(a / 10);
    decimal_is_digits(b / 10);
    if decimal(a) == decimal(b) {
        if a >= 10 && b >= 10 {
            assert(decimal(a).drop_last() =~= decimal(a / 10));
            assert(decimal(b).drop_last() =~= decimal(b / 10));
            numbers_are_told_apart(a / 10, b / 10);
            assert(decimal(a).last() == digit_char(a % 10));
            assert(decimal(b).last() == digit_char(b % 10));
        } else if a < 10 && b < 10 {
            assert(decimal(a)[0] == digit_char(a));
            assert(decimal(b)[0] == digit_char(b));
        } else {
            assert(decimal(a).len() == decimal(b).len());
        }
    }
}

/// A text holds what either of its halves holds, and itself.
pub proof fn lemma_held()
    ensures
        forall|x: Seq<char>, y: Seq<char>, p: Seq<char>|
            has_text(x, p) ==> #[trigger] has_text(x + y, p),
        forall|x: Seq<char>, y: Seq<char>, p: Seq<char>|
            has_text(y, p) ==> #[trigger] has_text(x + y, p),
        forall|p: Seq<char>| #[trigger] has_text(p, p),
{
    let nothing = Seq::<char>::empty();
    assert forall|x: Seq<char>, y: Seq<char>, p: Seq<char>| has_text(x, p) implies #[trigger] has_text(
        x + y,
        p,
    ) by {
        parts_of_parts_are_held(nothing, x, y, p);
        assert(nothing + x + y =~= x + y);
    }
    assert forall|x: Seq<char>, y: Seq<char>, p: Seq<char>| has_text(y, p) implies #[trigger] has_text(
        x + y,
        p,
    ) by {
        parts_of_parts_are_held(x, y, nothing, p);
        assert(x + y + nothing =~= x + y);
    }
    assert forall|p: Seq<char>| #[trigger] has_text(p, p) by {
        texts_hold_themselves(p);
    }
}

/// A text holds what its last parts make together.
pub proof fn lemma_ends_are_held()
    ensures
        forall|h: Seq<char>, a: Seq<char>, b: Seq<char>| #[trigger] has_text(h + a + b, a + b),
        forall|h: Seq<char>, a: Seq<char>, b: Seq<char>, c: Seq<char>| #[trigger]
            has_text(h + a + b + c, a + b + c),
        forall|h: Seq<char>, a: Seq<char>, b: Seq<char>, c: Seq<char>, d: Seq<char>| #[trigger]
            has_text(h + a + b + c + d, a + b + c + d),
{
    assert forall|h: Seq<char>, a: Seq<char>, b: Seq<char>| #[trigger] has_text(h + a + b, a + b) by {
        let whole = h + a + b;
        assert(whole.subrange(h.len() as int, whole.len() as int) =~= a + b);
        assert(occurs_at(whole, a + b, h.len() as int));
    }
    assert forall|h: Seq<char>, a: Seq<char>, b: Seq<char>, c: Seq<char>| #[trigger] has_text(
        h + a + b + c,
        a + b + c,
    ) by {
        lemma_end_is_held(h, a, b, c);
    }
    assert forall|h: Seq<char>, a: Seq<char>, b: Seq<char>, c: Seq<char>, d: Seq<char>| #[trigger]
        has_text(h + a + b + c + d, a + b + c + d) by {
        let whole = h + a + b + c + d;
        let part = a + b + c + d;
        assert(whole.subrange(h.len() as int, whole.len() as int) =~= part);
        assert(occurs_at(whole, part, h.len() as int));
    }
}

/// What a text begins with is kept when more is put behind it.
pub proof fn lemma_beginnings_are_kept()
    ensures
        forall|x: Seq<char>, y: Seq<char>, p: Seq<char>|
            p.is_prefix_of(x) ==> #[trigger] p.is_prefix_of(x + y),
{
    assert forall|x: Seq<char>, y: Seq<char>, p: Seq<char>| p.is_prefix_of(x) implies #[trigger] p.is_prefix_of(
        x + y,
    ) by {
        assert((x + y).subrange(0, p.len() as int) =~= x.subrange(0, p.len() as int));
    }
}

/// Texts are ordered by the first character in which they differ, and a text comes
/// before every longer one that begins with it.
pub proof fn first_difference_decides(
    common: Seq<char>,
    a: char,
    b: char,
    x: Seq<char>,
    y: Seq<char>,
)
    ensures
        a != b ==> text_lt(common + (seq![a] + x), common + (seq![b] + y)) == (a < b),
        text_lt(common, common + (seq![b] + y)),
        !text_lt(common + x, common),
    decreases common.len(),
{
    if common.len() == 0 {
        assert(common + (seq![a] + x) =~= seq![a] + x);
        assert(common + (seq![b] + y) =~= seq![b] + y);
    } else {
        let rest = common.drop_first();
        first_difference_decides(rest, a, b, x, y);
        assert((common + (seq![a] + x)).drop_first() =~= rest + (seq![a] + x));
        assert((common + (seq![b] + y)).drop_first() =~= rest + (seq![b] + y));
        assert((common + x).drop_first() =~= rest + x);
    }
}

}
