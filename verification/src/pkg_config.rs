//! What a `.pc` file of pkg-config says about linking.
use vstd::prelude::*;
use vstd::string::*;

use crate::ordered_map;
use crate::ordered_map::OrderedMap;
use crate::paths;
use crate::text;

verus! {

broadcast use vstd::string::group_string_axioms;

/// Where to look for libraries, and which ones to link.
#[derive(Debug)]
pub struct PkgConfigLinkMetadata {
    pub lib_dirs: Vec<String>,
    pub libs: Vec<String>,
}

// ---------------------------------------------------------------------------
// Model
// ---------------------------------------------------------------------------

/// The model of a [`PkgConfigLinkMetadata`].
#[verifier::ext_equal]
pub struct LinkingView {
    pub lib_dirs: Seq<Seq<char>>,
    pub libs: Seq<Seq<char>>,
}

impl View for PkgConfigLinkMetadata {
    type V = LinkingView;

    open spec fn view(&self) -> LinkingView {
        LinkingView { lib_dirs: text::texts(self.lib_dirs@), libs: text::texts(self.libs@) }
    }
}

/// How deep variables are expanded inside variables.
pub const MAX_DEPTH: usize = 8;

/// The position of the first `${` in `s`, or the length of `s`.
pub open spec fn marker(s: Seq<char>) -> int
    decreases s.len(),
{
    if s.len() < 2 {
        s.len() as int
    } else if s[0] == '$' && s[1] == '{' {
        0
    } else {
        1 + marker(s.drop_first())
    }
}

/// The first `${` of `s` and the first `}` behind it.
pub open spec fn reference(s: Seq<char>) -> Option<(int, int)> {
    let start = marker(s);
    if start + 2 > s.len() {
        None
    } else {
        let end = start + 2 + text::position(s.skip(start + 2), '}');
        if end < s.len() {
            Some((start, end))
        } else {
            None
        }
    }
}

/// `s` with its references expanded, the first one first, if at most `budget`
/// replacements leave none; inside a reference, each expansion has a budget of its own.
pub open spec fn settled(
    s: Seq<char>,
    vars: Map<Seq<char>, Seq<char>>,
    depth: nat,
    budget: nat,
) -> Option<Seq<char>>
    decreases MAX_DEPTH - depth, budget,
{
    if depth >= MAX_DEPTH {
        Some(s)
    } else {
        match reference(s) {
            None => Some(s),
            Some((start, end)) => if budget == 0 {
                None
            } else {
                let key = s.subrange(start + 2, end);
                let inner = if vars.dom().contains(key) {
                    settled(vars[key], vars, depth + 1, usize::MAX as nat)
                } else {
                    Some(Seq::empty())
                };
                match inner {
                    None => None,
                    Some(value) => settled(
                        s.take(start) + value + s.skip(end + 1),
                        vars,
                        depth,
                        (budget - 1) as nat,
                    ),
                }
            },
        }
    }
}

/// The value of a line that has no blanks around it, if it defines a variable.
pub open spec fn variable(line: Seq<char>) -> Option<(Seq<char>, Seq<char>)> {
    let i = text::position(line, '=');
    let key = text::trimmed(line.take(i));
    if i < line.len() && key.len() > 0 && !key.contains(' ') && !key.contains('\t')
        && !key.contains(':') {
        Some((key, text::trimmed(line.skip(i + 1))))
    } else {
        None
    }
}

/// The linker arguments of a line that has no blanks around it.
pub open spec fn section(line: Seq<char>) -> Option<Seq<char>> {
    if variable(line) is Some {
        None
    } else if "Libs:"@.is_prefix_of(line) {
        Some(text::trimmed(line.skip("Libs:"@.len() as int)))
    } else if "Libs.private:"@.is_prefix_of(line) {
        Some(text::trimmed(line.skip("Libs.private:"@.len() as int)))
    } else {
        None
    }
}

/// A line that says nothing.
pub open spec fn is_void(line: Seq<char>) -> bool {
    line.len() == 0 || "#"@.is_prefix_of(line)
}

/// The variables that `lines` define; the last definition counts.
pub open spec fn variables(lines: Seq<Seq<char>>) -> Map<Seq<char>, Seq<char>>
    decreases lines.len(),
{
    if lines.len() == 0 {
        Map::empty()
    } else {
        let line = text::trimmed(lines.last());
        let before = variables(lines.drop_last());
        match variable(line) {
            Some((key, value)) => if is_void(line) {
                before
            } else {
                before.insert(key, value)
            },
            None => before,
        }
    }
}

/// The lists of linker arguments in `lines`.
pub open spec fn sections(lines: Seq<Seq<char>>) -> Seq<Seq<char>>
    decreases lines.len(),
{
    if lines.len() == 0 {
        Seq::empty()
    } else {
        let line = text::trimmed(lines.last());
        let before = sections(lines.drop_last());
        match section(line) {
            Some(value) => if is_void(line) {
                before
            } else {
                before.push(value)
            },
            None => before,
        }
    }
}

/// `token` without quotes around it.
pub open spec fn unquoted(token: Seq<char>) -> Seq<char> {
    text::stripped(text::stripped(token, '"'), '\'')
}

/// `known` with the library directory `dir`.
pub open spec fn with_dir(known: LinkingView, dir: Seq<char>) -> LinkingView {
    if dir.len() == 0 {
        known
    } else {
        LinkingView {
            lib_dirs: text::with_unique(known.lib_dirs, paths::normalized(dir)),
            libs: known.libs,
        }
    }
}

/// `known` with the library `lib`.
pub open spec fn with_lib(known: LinkingView, lib: Seq<char>) -> LinkingView {
    if lib.len() == 0 {
        known
    } else {
        LinkingView { lib_dirs: known.lib_dirs, libs: text::with_unique(known.libs, lib) }
    }
}

/// `known` with what the linker arguments `tokens` say.
pub open spec fn linked(known: LinkingView, tokens: Seq<Seq<char>>) -> LinkingView
    decreases tokens.len(),
{
    if tokens.len() == 0 {
        known
    } else {
        let token = tokens[0];
        let rest = tokens.drop_first();
        if token == "-L"@ {
            if rest.len() == 0 {
                known
            } else {
                linked(with_dir(known, unquoted(rest[0])), rest.drop_first())
            }
        } else if token == "-l"@ {
            if rest.len() == 0 {
                known
            } else {
                linked(with_lib(known, unquoted(rest[0])), rest.drop_first())
            }
        } else if "-L"@.is_prefix_of(token) {
            linked(with_dir(known, unquoted(token.skip(2))), rest)
        } else if "-l"@.is_prefix_of(token) {
            linked(with_lib(known, unquoted(token.skip(2))), rest)
        } else if "-"@.is_prefix_of(token) || token.contains('/') || token.contains('\\') {
            linked(with_lib(known, token), rest)
        } else {
            linked(known, rest)
        }
    }
}

/// The linker arguments in an expanded text.
pub open spec fn tokens(expanded: Seq<char>) -> Seq<Seq<char>> {
    text::words(expanded).map_values(|word: Seq<char>| unquoted(word))
}

/// What lists of linker arguments say, if all their references settle.
pub open spec fn gathered(
    lists: Seq<Seq<char>>,
    vars: Map<Seq<char>, Seq<char>>,
) -> Option<LinkingView>
    decreases lists.len(),
{
    if lists.len() == 0 {
        Some(LinkingView { lib_dirs: Seq::empty(), libs: Seq::empty() })
    } else {
        match (
            gathered(lists.drop_last(), vars),
            settled(lists.last(), vars, 0, usize::MAX as nat),
        ) {
            (Some(known), Some(expanded)) => Some(linked(known, tokens(expanded))),
            _ => None,
        }
    }
}

/// What a `.pc` file says about linking.
pub open spec fn link_metadata(content: Seq<char>) -> Option<LinkingView> {
    let lines = text::split(content, '\n');
    gathered(sections(lines), variables(lines))
}

// ---------------------------------------------------------------------------
// Laws
// ---------------------------------------------------------------------------

/// Expansion ends at a text without references.
pub proof fn settled_has_no_reference(
    s: Seq<char>,
    vars: Map<Seq<char>, Seq<char>>,
    depth: nat,
    budget: nat,
)
    requires
        depth < MAX_DEPTH,
    ensures
        settled(s, vars, depth, budget) matches Some(end) ==> reference(end) is None,
    decreases budget,
{
    if let Some((start, end)) = reference(s) {
        if budget > 0 {
            let key = s.subrange(start + 2, end);
            let inner = if vars.dom().contains(key) {
                settled(vars[key], vars, depth + 1, usize::MAX as nat)
            } else {
                Some(Seq::empty())
            };
            if let Some(value) = inner {
                settled_has_no_reference(
                    s.take(start) + value + s.skip(end + 1),
                    vars,
                    depth,
                    (budget - 1) as nat,
                );
            }
        }
    }
}

/// A text without references is its own expansion, so expanding twice changes nothing.
pub proof fn settled_is_stable(
    s: Seq<char>,
    vars: Map<Seq<char>, Seq<char>>,
    depth: nat,
    budget: nat,
    other_depth: nat,
    other_budget: nat,
)
    requires
        depth < MAX_DEPTH,
        settled(s, vars, depth, budget) is Some,
    ensures
        ({
            let end = settled(s, vars, depth, budget)->0;
            settled(end, vars, other_depth, other_budget) == Some(end)
        }),
{
    settled_has_no_reference(s, vars, depth, budget);
}

proof fn lemma_linked_distinct(known: LinkingView, list: Seq<Seq<char>>)
    requires
        known.lib_dirs.no_duplicates(),
        known.libs.no_duplicates(),
    ensures
        linked(known, list).lib_dirs.no_duplicates(),
        linked(known, list).libs.no_duplicates(),
    decreases list.len(),
{
    if list.len() > 0 {
        let token = list[0];
        let rest = list.drop_first();
        let after = if rest.len() > 0 {
            rest.drop_first()
        } else {
            rest
        };
        let dirs = seq![unquoted(rest[0]), unquoted(token.skip(2)), token];
        assert forall|i: int| 0 <= i < 3 implies with_dir(
            known,
            #[trigger] dirs[i],
        ).lib_dirs.no_duplicates() && with_lib(known, dirs[i]).libs.no_duplicates() by {
            text::unique_stays_unique(known.lib_dirs, paths::normalized(dirs[i]));
            text::unique_stays_unique(known.libs, dirs[i]);
        }
        assert(dirs[0] == unquoted(rest[0]) && dirs[1] == unquoted(token.skip(2)) && dirs[2]
            == token);
        if token == "-L"@ {
            if rest.len() > 0 {
                lemma_linked_distinct(with_dir(known, unquoted(rest[0])), after);
            }
        } else if token == "-l"@ {
            if rest.len() > 0 {
                lemma_linked_distinct(with_lib(known, unquoted(rest[0])), after);
            }
        } else if "-L"@.is_prefix_of(token) {
            lemma_linked_distinct(with_dir(known, unquoted(token.skip(2))), rest);
        } else if "-l"@.is_prefix_of(token) {
            lemma_linked_distinct(with_lib(known, unquoted(token.skip(2))), rest);
        } else if "-"@.is_prefix_of(token) || token.contains('/') || token.contains('\\') {
            lemma_linked_distinct(with_lib(known, token), rest);
        } else {
            lemma_linked_distinct(known, rest);
        }
    }
}

/// No directory and no library is listed twice.
pub proof fn metadata_is_distinct(content: Seq<char>)
    ensures
        link_metadata(content) matches Some(known) ==> known.lib_dirs.no_duplicates()
            && known.libs.no_duplicates(),
{
    let lines = text::split(content, '\n');
    lemma_gathered_distinct(sections(lines), variables(lines));
}

proof fn lemma_gathered_distinct(lists: Seq<Seq<char>>, vars: Map<Seq<char>, Seq<char>>)
    ensures
        gathered(lists, vars) matches Some(known) ==> known.lib_dirs.no_duplicates()
            && known.libs.no_duplicates(),
    decreases lists.len(),
{
    if lists.len() > 0 {
        lemma_gathered_distinct(lists.drop_last(), vars);
        if let (Some(known), Some(expanded)) = (
            gathered(lists.drop_last(), vars),
            settled(lists.last(), vars, 0, usize::MAX as nat),
        ) {
            lemma_linked_distinct(known, tokens(expanded));
        }
    }
}

// ---------------------------------------------------------------------------
// Laws of the file format
// ---------------------------------------------------------------------------

/// A text that neither begins nor ends with a quote.
pub open spec fn is_bare(s: Seq<char>) -> bool {
    s.len() > 0 && s[0] != '"' && s[0] != '\'' && s.last() != '"' && s.last() != '\''
}

proof fn lemma_bare_is_kept(s: Seq<char>)
    requires
        is_bare(s),
    ensures
        unquoted(s) == s,
{
}

/// `-l` names a library, whether the name follows at once or as the next word; each
/// library is listed once.
pub proof fn small_l_names_a_library(
    known: LinkingView,
    name: Seq<char>,
    rest: Seq<Seq<char>>,
)
    requires
        is_bare(name),
    ensures
        linked(known, seq!["-l"@ + name] + rest) == linked(
            LinkingView { lib_dirs: known.lib_dirs, libs: text::with_unique(known.libs, name) },
            rest,
        ),
        linked(known, seq!["-l"@, name] + rest) == linked(
            LinkingView { lib_dirs: known.lib_dirs, libs: text::with_unique(known.libs, name) },
            rest,
        ),
{
    reveal_strlit("-l");
    reveal_strlit("-L");
    lemma_bare_is_kept(name);
    let token = "-l"@ + name;
    let one = seq![token] + rest;
    assert(one[0] == token && one.drop_first() =~= rest);
    assert(token.len() > 2 && token[1] == 'l');
    assert(token.subrange(0, 2) =~= "-l"@);
    assert(token.skip(2) =~= name);
    assert(!("-L"@.is_prefix_of(token))) by {
        assert(token.subrange(0, 2)[1] == 'l');
        assert("-L"@[1] == 'L');
    }
    let two = seq!["-l"@, name] + rest;
    assert(two.drop_first().drop_first() =~= rest);
    assert("-l"@ != "-L"@) by {
        assert("-l"@[1] == 'l' && "-L"@[1] == 'L');
    }
}

/// `-L` names a directory of libraries in the same way, which is listed with `/` as its
/// only separator.
pub proof fn capital_l_names_a_directory(
    known: LinkingView,
    dir: Seq<char>,
    rest: Seq<Seq<char>>,
)
    requires
        is_bare(dir),
    ensures
        linked(known, seq!["-L"@ + dir] + rest) == linked(
            LinkingView {
                lib_dirs: text::with_unique(known.lib_dirs, paths::normalized(dir)),
                libs: known.libs,
            },
            rest,
        ),
        linked(known, seq!["-L"@, dir] + rest) == linked(
            LinkingView {
                lib_dirs: text::with_unique(known.lib_dirs, paths::normalized(dir)),
                libs: known.libs,
            },
            rest,
        ),
{
    reveal_strlit("-l");
    reveal_strlit("-L");
    lemma_bare_is_kept(dir);
    let token = "-L"@ + dir;
    let one = seq![token] + rest;
    assert(one[0] == token && one.drop_first() =~= rest);
    assert(token.len() > 2 && token[1] == 'L');
    assert(token.subrange(0, 2) =~= "-L"@);
    assert(token.skip(2) =~= dir);
    let two = seq!["-L"@, dir] + rest;
    assert(two.drop_first().drop_first() =~= rest);
}

/// Any other flag, and a path, is passed to the linker as it is; any other word is not.
pub proof fn other_words_are_flags_or_paths(
    known: LinkingView,
    token: Seq<char>,
    rest: Seq<Seq<char>>,
)
    requires
        token.len() > 0,
        token.len() < 2 || token[0] != '-' || (token[1] != 'l' && token[1] != 'L'),
    ensures
        token[0] == '-' || token.contains('/') || token.contains('\\') ==> linked(
            known,
            seq![token] + rest,
        ) == linked(
            LinkingView { lib_dirs: known.lib_dirs, libs: text::with_unique(known.libs, token) },
            rest,
        ),
        token[0] != '-' && !token.contains('/') && !token.contains('\\') ==> linked(
            known,
            seq![token] + rest,
        ) == linked(known, rest),
{
    reveal_strlit("-l");
    reveal_strlit("-L");
    reveal_strlit("-");
    let one = seq![token] + rest;
    assert(one[0] == token && one.drop_first() =~= rest);
    if token.len() >= 2 {
        assert(token.subrange(0, 2)[0] == token[0] && token.subrange(0, 2)[1] == token[1]);
        assert("-L"@[0] == '-' && "-L"@[1] == 'L' && "-l"@[0] == '-' && "-l"@[1] == 'l');
    }
    assert(!("-L"@.is_prefix_of(token)) && !("-l"@.is_prefix_of(token)));
    assert(token != "-L"@ && token != "-l"@) by {
        if token == "-L"@ {
            assert(token.len() == 2 && token[1] == 'L');
        }
        if token == "-l"@ {
            assert(token.len() == 2 && token[1] == 'l');
        }
    }
    assert(token.subrange(0, 1)[0] == token[0]);
    assert("-"@.is_prefix_of(token) == (token[0] == '-')) by {
        if token[0] == '-' {
            assert(token.subrange(0, 1) =~= "-"@);
        }
    }
}

proof fn lemma_visible_is_kept(s: Seq<char>, c: char)
    requires
        s.contains(c),
        !text::is_white(c),
    ensures
        text::trimmed(s).contains(c),
{
    text::trimming_cuts_white_space_alone(s);
    let from = choose|from: int|
        {
            &&& 0 <= from <= from + text::trimmed(s).len() <= s.len()
            &&& text::trimmed(s) == #[trigger] s.subrange(from, from + text::trimmed(s).len())
            &&& forall|i: int| 0 <= i < from ==> text::is_white(#[trigger] s[i])
            &&& forall|i: int| from + text::trimmed(s).len() <= i < s.len() ==> text::is_white(
                #[trigger] s[i],
            )
        };
    let k = choose|k: int| 0 <= k < s.len() && s[k] == c;
    assert(from <= k < from + text::trimmed(s).len());
    assert(text::trimmed(s)[k - from] == c);
}

/// What follows `Libs:` and `Libs.private:` is for the linker, whatever it holds; what
/// follows any other word with a colon is not.
pub proof fn two_lines_are_for_the_linker(value: Seq<char>)
    ensures
        section("Libs:"@ + value) == Some(text::trimmed(value)),
        section("Libs.private:"@ + value) == Some(text::trimmed(value)),
        section("Cflags:"@ + value) is None,
        section("Requires:"@ + value) is None,
{
    reveal_strlit("Libs:");
    reveal_strlit("Libs.private:");
    reveal_strlit("Cflags:");
    reveal_strlit("Requires:");
    assert("Libs:"@[4] == ':' && "Libs.private:"@[12] == ':');
    lemma_colon_defines_nothing("Libs:"@, value);
    lemma_colon_defines_nothing("Libs.private:"@, value);
    let a = "Libs:"@ + value;
    let b = "Libs.private:"@ + value;
    let c = "Cflags:"@ + value;
    let d = "Requires:"@ + value;
    assert(a.subrange(0, 5) =~= "Libs:"@ && a.skip(5) =~= value);
    assert(b.subrange(0, 13) =~= "Libs.private:"@ && b.skip(13) =~= value);
    assert(b.subrange(0, 5)[4] == '.' && "Libs:"@[4] == ':');
    assert(c[0] == 'C' && d[0] == 'R' && "Libs:"@[0] == 'L' && "Libs.private:"@[0] == 'L');
    assert(c.len() >= 5 ==> c.subrange(0, 5)[0] == 'C');
    assert(c.len() >= 13 ==> c.subrange(0, 13)[0] == 'C');
    assert(d.len() >= 5 ==> d.subrange(0, 5)[0] == 'R');
    assert(d.len() >= 13 ==> d.subrange(0, 13)[0] == 'R');
}

proof fn lemma_colon_defines_nothing(word: Seq<char>, value: Seq<char>)
    requires
        word.contains(':'),
        !word.contains('='),
    ensures
        variable(word + value) is None,
{
    let line = word + value;
    let i = text::position(line, '=');
    text::lemma_position(line, '=');
    let k = choose|k: int| 0 <= k < word.len() && word[k] == ':';
    if i < line.len() {
        assert(i >= word.len()) by {
            if i < word.len() {
                assert(word[i] == '=');
            }
        }
        assert(line.take(i)[k] == ':');
        lemma_visible_is_kept(line.take(i), ':');
    }
}

/// `name=value` defines a variable, without the white space around either; a name
/// holds no white space and no colon.
pub proof fn equals_signs_define_variables(name: Seq<char>, value: Seq<char>)
    requires
        text::trimmed(name).len() > 0,
        !name.contains('='),
        !text::trimmed(name).contains(' '),
        !text::trimmed(name).contains('\t'),
        !name.contains(':'),
    ensures
        variable(name + seq!['='] + value) == Some((text::trimmed(name), text::trimmed(value))),
        section(name + seq!['='] + value) is None,
{
    let line = name + seq!['='] + value;
    let n = name.len() as int;
    text::lemma_position(line, '=');
    let i = text::position(line, '=');
    assert(line[n] == '=');
    if i < n {
        assert(name[i] == '=');
    }
    assert(i == n);
    assert(line.take(n) =~= name);
    assert(line.skip(n + 1) =~= value);
    assert(!text::trimmed(name).contains(':')) by {
        if text::trimmed(name).contains(':') {
            text::trimming_cuts_white_space_alone(name);
            let from = choose|from: int|
                0 <= from <= from + text::trimmed(name).len() <= name.len() && text::trimmed(name)
                    == #[trigger] name.subrange(from, from + text::trimmed(name).len());
            let k = choose|k: int|
                0 <= k < text::trimmed(name).len() && text::trimmed(name)[k] == ':';
            assert(name[from + k] == ':');
        }
    }
}

/// An empty line and one that begins with `#` say nothing; the last definition of a
/// variable counts, and every line for the linker does, in their order.
pub proof fn lines_add_up(lines: Seq<Seq<char>>, line: Seq<char>)
    ensures
        text::trimmed(line).len() == 0 || text::trimmed(line)[0] == '#' ==> variables(
            lines.push(line),
        ) == variables(lines) && sections(lines.push(line)) == sections(lines),
        text::trimmed(line).len() > 0 && text::trimmed(line)[0] != '#' ==> {
            &&& variable(text::trimmed(line)) matches Some((key, value)) ==> variables(
                lines.push(line),
            ) == variables(lines).insert(key, value) && sections(lines.push(line)) == sections(
                lines,
            )
            &&& section(text::trimmed(line)) matches Some(value) ==> sections(lines.push(line))
                == sections(lines).push(value) && variables(lines.push(line)) == variables(lines)
        },
{
    reveal_strlit("#");
    let all = lines.push(line);
    let bare = text::trimmed(line);
    assert(all.drop_last() =~= lines);
    assert(all.last() == line);
    if bare.len() > 0 {
        assert(bare.subrange(0, 1)[0] == bare[0]);
        assert("#"@.is_prefix_of(bare) == (bare[0] == '#')) by {
            if bare[0] == '#' {
                assert(bare.subrange(0, 1) =~= "#"@);
            }
        }
    }
}

proof fn lemma_no_marker(s: Seq<char>)
    requires
        !s.contains('$'),
    ensures
        marker(s) == s.len(),
    decreases s.len(),
{
    if s.len() >= 2 {
        assert(s.contains(s[0]));
        assert(!s.drop_first().contains('$')) by {
            if s.drop_first().contains('$') {
                let k = choose|k: int| 0 <= k < s.drop_first().len() && s.drop_first()[k] == '$';
                assert(s[k + 1] == '$');
            }
        }
        lemma_no_marker(s.drop_first());
    }
}

proof fn lemma_marker_after(a: Seq<char>, b: Seq<char>)
    requires
        !a.contains('$'),
        b.len() >= 2,
        b[0] == '$',
        b[1] == '{',
    ensures
        marker(a + b) == a.len(),
    decreases a.len(),
{
    let s = a + b;
    if a.len() > 0 {
        assert(a.contains(a[0]));
        assert(s[0] == a[0]);
        assert(!a.drop_first().contains('$')) by {
            if a.drop_first().contains('$') {
                let k = choose|k: int| 0 <= k < a.drop_first().len() && a.drop_first()[k] == '$';
                assert(a[k + 1] == '$');
            }
        }
        lemma_marker_after(a.drop_first(), b);
        assert(s.drop_first() =~= a.drop_first() + b);
    } else {
        assert(s =~= b);
    }
}

/// A text without `$` stands for itself. `${name}` is replaced by the value of the
/// variable, and by nothing where there is no such variable.
pub proof fn references_are_replaced(
    before: Seq<char>,
    name: Seq<char>,
    after: Seq<char>,
    vars: Map<Seq<char>, Seq<char>>,
    depth: nat,
    budget: nat,
)
    requires
        !before.contains('$'),
        !after.contains('$'),
        !name.contains('}'),
        vars.dom().contains(name) ==> !vars[name].contains('$'),
        depth < 8,
        budget > 0,
    ensures
        settled(before, vars, depth, budget) == Some(before),
        vars.dom().contains(name) ==> settled(
            before + (seq!['$', '{'] + name + seq!['}'] + after),
            vars,
            depth,
            budget,
        ) == Some(before + vars[name] + after),
        !vars.dom().contains(name) ==> settled(
            before + (seq!['$', '{'] + name + seq!['}'] + after),
            vars,
            depth,
            budget,
        ) == Some(before + after),
{
    let tail = seq!['$', '{'] + name + seq!['}'] + after;
    let s = before + tail;
    let start = before.len() as int;
    lemma_no_marker(before);
    lemma_marker_after(before, tail);
    let inner = s.skip(start + 2);
    assert(inner =~= name + seq!['}'] + after);
    text::lemma_position(inner, '}');
    let p = text::position(inner, '}');
    assert(inner[name.len() as int] == '}');
    if p < name.len() {
        assert(name[p] == '}');
    }
    assert(p == name.len());
    let end = start + 2 + name.len();
    assert(reference(s) == Some((start, end)));
    assert(s.subrange(start + 2, end) =~= name);
    assert(s.take(start) =~= before);
    assert(s.skip(end + 1) =~= after);
    let value = if vars.dom().contains(name) {
        vars[name]
    } else {
        Seq::empty()
    };
    lemma_no_marker(value);
    assert(vars.dom().contains(name) ==> settled(value, vars, depth + 1, usize::MAX as nat) == Some(
        value,
    ));
    let next = before + value + after;
    assert(!next.contains('$')) by {
        if next.contains('$') {
            let k = choose|k: int| 0 <= k < next.len() && next[k] == '$';
            if k < before.len() {
                assert(before[k] == '$');
            } else if k < before.len() + value.len() {
                assert(value[k - before.len()] == '$');
            } else {
                assert(after[k - before.len() - value.len()] == '$');
            }
        }
    }
    lemma_no_marker(next);
    assert(settled(next, vars, depth, (budget - 1) as nat) == Some(next));
    assert(!vars.dom().contains(name) ==> next =~= before + after);
}

/// Quotes around a word do not count.
pub proof fn quotes_are_dropped(s: Seq<char>)
    requires
        is_bare(s),
    ensures
        unquoted(seq!['"'] + s + seq!['"']) == s,
        unquoted(seq!['\''] + s + seq!['\'']) == s,
        unquoted(s) == s,
{
    lemma_stripped_once(s, '"');
    lemma_stripped_once(s, '\'');
    let single = seq!['\''] + s + seq!['\''];
    assert(single[0] == '\'' && single.last() == '\'');
    assert(text::stripped(single, '"') == single);
}

proof fn lemma_stripped_once(s: Seq<char>, c: char)
    requires
        s.len() > 0,
        s[0] != c,
        s.last() != c,
    ensures
        text::stripped(seq![c] + s + seq![c], c) == s,
        text::stripped(s, c) == s,
{
    let whole = seq![c] + s + seq![c];
    let less = s + seq![c];
    assert(text::stripped_start(s, c) == s);
    assert(text::stripped_end(s, c) == s);
    assert(less.len() > 0 && less[0] == s[0]);
    assert(text::stripped_start(less, c) == less);
    assert(whole.len() > 0 && whole[0] == c && whole.drop_first() =~= less);
    assert(text::stripped_start(whole, c) == text::stripped_start(less, c));
    assert(less.last() == c && less.drop_last() =~= s);
    assert(text::stripped_end(less, c) == text::stripped_end(s, c));
}

/// The words of a line for the linker are read one by one, each without its quotes.
pub proof fn words_lose_their_quotes(expanded: Seq<char>, i: int)
    requires
        0 <= i < text::words(expanded).len(),
    ensures
        tokens(expanded).len() == text::words(expanded).len(),
        tokens(expanded)[i] == unquoted(text::words(expanded)[i]),
{
}

/// Each line for the linker adds to what those before it say; one without references
/// is read as it stands.
pub proof fn lines_for_the_linker_add_up(
    lists: Seq<Seq<char>>,
    list: Seq<char>,
    vars: Map<Seq<char>, Seq<char>>,
    known: LinkingView,
)
    requires
        gathered(lists, vars) == Some(known),
        !list.contains('$'),
    ensures
        gathered(lists.push(list), vars) == Some(linked(known, tokens(list))),
        gathered(Seq::empty(), vars) matches Some(start) && start.lib_dirs.len() == 0
            && start.libs.len() == 0,
{
    assert(lists.push(list).drop_last() =~= lists);
    lemma_no_marker(list);
    assert(settled(list, vars, 0, usize::MAX as nat) == Some(list));
}

/// What a file says is what its lines for the linker say, with its variables, wherever in
/// it those stand.
pub proof fn files_are_read_line_by_line(lines: Seq<Seq<char>>)
    requires
        lines.len() > 0,
        forall|i: int| 0 <= i < lines.len() ==> !(#[trigger] lines[i]).contains('\n'),
    ensures
        link_metadata(text::joined(lines, seq!['\n'])) == gathered(sections(lines), variables(lines)),
{
    text::split_of_joined(lines, '\n');
}

// ---------------------------------------------------------------------------
// Functions
// ---------------------------------------------------------------------------

/// The texts of a map of variables.
pub open spec fn var_texts(vars: OrderedMap<String>) -> Map<Seq<char>, Seq<char>> {
    ordered_map::map_of(vars@).map_values(|s: String| s@)
}

fn find_marker(v: &Vec<char>) -> (r: usize)
    ensures
        r <= v@.len(),
        r + 2 <= v@.len() ==> r == marker(v@),
        r + 2 > v@.len() ==> marker(v@) + 2 > v@.len(),
{
    let ghost all = v@;
    let mut i: usize = 0;
    assert(all.skip(0) == all);
    while v.len() - i >= 2
        invariant
            i <= v@.len(),
            all == v@,
            marker(all) == i + marker(all.skip(i as int)),
        decreases v.len() - i,
    {
        assert(all.skip(i as int).drop_first() == all.skip(i + 1));
        if v[i] == '$' && v[i + 1] == '{' {
            return i;
        }
        i += 1;
    }
    i
}

/// The expansion of `value`; none where it does not settle.
pub fn expand_pkg_config_value(value: &str, vars: &OrderedMap<String>, depth: usize) -> (r: Option<
    String,
>)
    ensures
        text::opt_text(r) == settled(value@, var_texts(*vars), depth as nat, usize::MAX as nat),
    decreases MAX_DEPTH - depth,
{
    let ghost map = var_texts(*vars);
    if depth >= MAX_DEPTH {
        return Some(value.to_owned());
    }
    let mut expanded = value.to_owned();
    let mut budget: usize = usize::MAX;
    loop
        invariant
            depth < MAX_DEPTH,
            map == var_texts(*vars),
            settled(value@, map, depth as nat, usize::MAX as nat) == settled(
                expanded@,
                map,
                depth as nat,
                budget as nat,
            ),
        decreases budget,
    {
        let v = text::chars_of(expanded.as_str());
        let ghost s = expanded@;
        let start = find_marker(&v);
        if v.len() - start < 2 {
            return Some(expanded);
        }
        let end = text::find_char(&v, '}', start + 2);
        if end == v.len() {
            return Some(expanded);
        }
        if budget == 0 {
            return None;
        }
        let key = text::text_of(&v, start + 2, end);
        assert(key@ == s.subrange(start + 2, end as int));
        let replacement = match vars.get(key.as_str()) {
            Some(candidate) => {
                assert(map.dom().contains(key@) && map[key@] == candidate@);
                match expand_pkg_config_value(candidate.as_str(), vars, depth + 1) {
                    Some(text) => text,
                    None => {
                        return None;
                    },
                }
            },
            None => {
                assert(!map.dom().contains(key@));
                let empty = String::new();
                assert(empty@ =~= Seq::<char>::empty());
                empty
            },
        };
        let mut next = text::text_of(&v, 0, start);
        next.append(replacement.as_str());
        next.append(text::text_of(&v, end + 1, v.len()).as_str());
        assert(next@ =~= s.take(start as int) + replacement@ + s.skip(end + 1));
        expanded = next;
        budget -= 1;
    }
}

fn read_variable(line: &str) -> (r: Option<(String, String)>)
    ensures
        (match r {
            Some(pair) => Some((pair.0@, pair.1@)),
            None => None,
        }) == variable(line@),
{
    let v = text::chars_of(line);
    assert(line@.skip(0) == line@);
    let i = text::find_char(&v, '=', 0);
    if i == v.len() {
        return None;
    }
    let front = text::text_of(&v, 0, i);
    let back = text::text_of(&v, i + 1, v.len());
    assert(front@ == line@.take(i as int));
    assert(back@ == line@.skip(i + 1));
    let key = text::trim(front.as_str());
    let named = !key.as_str().is_empty() && !text::has_char(key.as_str(), ' ') && !text::has_char(
        key.as_str(),
        '\t',
    ) && !text::has_char(key.as_str(), ':');
    if named {
        Some((key, text::trim(back.as_str())))
    } else {
        None
    }
}

fn unquote(token: &str) -> (r: String)
    ensures
        r@ == unquoted(token@),
{
    text::strip_char(text::strip_char(token, '"').as_str(), '\'')
}

fn add_dir(metadata: &mut PkgConfigLinkMetadata, dir: &str)
    ensures
        final(metadata)@ == with_dir(old(metadata)@, dir@),
{
    if !dir.is_empty() {
        text::push_unique(&mut metadata.lib_dirs, paths::normalize_path(dir));
    }
}

fn add_lib(metadata: &mut PkgConfigLinkMetadata, lib: &str)
    ensures
        final(metadata)@ == with_lib(old(metadata)@, lib@),
{
    if !lib.is_empty() {
        text::push_unique(&mut metadata.libs, lib.to_owned());
    }
}

fn read_tokens(metadata: &mut PkgConfigLinkMetadata, expanded: &str)
    ensures
        final(metadata)@ == linked(old(metadata)@, tokens(expanded@)),
{
    let words = text::split_words(expanded);
    let ghost all = tokens(expanded@);
    let ghost start = metadata@;
    let mut i: usize = 0;
    assert(all.skip(0) == all);
    while i < words.len()
        invariant
            i <= words@.len(),
            text::texts(words@) == text::words(expanded@),
            all == tokens(expanded@),
            all.len() == words@.len(),
            start == old(metadata)@,
            linked(start, all) == linked(metadata@, all.skip(i as int)),
        decreases words.len() - i,
    {
        let ghost rest = all.skip(i as int);
        assert(text::texts(words@)[i as int] == words@[i as int]@);
        let token = unquote(words[i].as_str());
        assert(rest[0] == token@);
        assert(rest.drop_first() == all.skip(i + 1));
        proof {
            reveal_strlit("-L");
            reveal_strlit("-l");
            reveal_strlit("-");
        }
        let separate_dir = text::same_text(token.as_str(), "-L");
        if separate_dir || text::same_text(token.as_str(), "-l") {
            if i + 1 == words.len() {
                assert(rest.drop_first().len() == 0);
                return;
            }
            assert(text::texts(words@)[i + 1] == words@[i + 1]@);
            let next = unquote(words[i + 1].as_str());
            assert(rest.drop_first()[0] == next@);
            assert(rest.drop_first().drop_first() == all.skip(i + 2));
            let clean = unquote(next.as_str());
            if separate_dir {
                add_dir(metadata, clean.as_str());
            } else {
                add_lib(metadata, clean.as_str());
            }
            i += 2;
        } else {
            if let Some(dir) = text::strip_prefix(token.as_str(), "-L") {
                add_dir(metadata, unquote(dir.as_str()).as_str());
            } else if let Some(lib) = text::strip_prefix(token.as_str(), "-l") {
                add_lib(metadata, unquote(lib.as_str()).as_str());
            } else if text::starts_with(token.as_str(), "-") || text::has_char(token.as_str(), '/')
                || text::has_char(token.as_str(), '\\') {
                add_lib(metadata, token.as_str());
            }
            i += 1;
        }
    }
    assert(all.skip(i as int).len() == 0);
}

/// What a `.pc` file says about linking; none where a reference in it does not settle.
pub fn parse_pkg_config_link_metadata(content: &str) -> (r: Option<PkgConfigLinkMetadata>)
    ensures
        (match r {
            Some(known) => Some(known@),
            None => None,
        }) == link_metadata(content@),
{
    let lines = text::split_on(content, '\n');
    let ghost all = text::texts(lines@);
    let mut vars: OrderedMap<String> = OrderedMap::new();
    let mut lists: Vec<String> = Vec::new();
    let mut i: usize = 0;
    assert(var_texts(vars) =~= variables(all.take(0)));
    assert(text::texts(lists@) =~= sections(all.take(0)));
    while i < lines.len()
        invariant
            i <= lines@.len(),
            all == text::texts(lines@),
            var_texts(vars) == variables(all.take(i as int)),
            text::texts(lists@) == sections(all.take(i as int)),
        decreases lines.len() - i,
    {
        let ghost before = var_texts(vars);
        let ghost old_lists = text::texts(lists@);
        assert(all.take(i + 1).drop_last() == all.take(i as int));
        assert(all.take(i + 1).last() == lines@[i as int]@);
        let line = text::trim(lines[i].as_str());
        if !line.as_str().is_empty() && !text::starts_with(line.as_str(), "#") {
            match read_variable(line.as_str()) {
                Some((key, value)) => {
                    let ghost k = key@;
                    let ghost v = value@;
                    vars.insert(key, value);
                    assert(var_texts(vars) =~= before.insert(k, v));
                },
                None => {
                    if let Some(value) = text::strip_prefix(line.as_str(), "Libs:") {
                        lists.push(text::trim(value.as_str()));
                        assert(text::texts(lists@) =~= old_lists.push(text::trimmed(value@)));
                    } else if let Some(value) = text::strip_prefix(line.as_str(), "Libs.private:") {
                        lists.push(text::trim(value.as_str()));
                        assert(text::texts(lists@) =~= old_lists.push(text::trimmed(value@)));
                    }
                },
            }
        }
        i += 1;
    }
    assert(all.take(all.len() as int) == all);
    let ghost map = var_texts(vars);
    let ghost all_lists = text::texts(lists@);
    let mut metadata = PkgConfigLinkMetadata { lib_dirs: Vec::new(), libs: Vec::new() };
    let mut j: usize = 0;
    assert(metadata@ =~= (LinkingView { lib_dirs: Seq::empty(), libs: Seq::empty() }));
    while j < lists.len()
        invariant
            j <= lists@.len(),
            map == var_texts(vars),
            all_lists == text::texts(lists@),
            link_metadata(content@) == gathered(all_lists, map),
            gathered(all_lists.take(j as int), map) == Some(metadata@),
        decreases lists.len() - j,
    {
        assert(all_lists.take(j + 1).drop_last() == all_lists.take(j as int));
        assert(all_lists.take(j + 1).last() == lists@[j as int]@);
        match expand_pkg_config_value(lists[j].as_str(), &vars, 0) {
            None => {
                proof {
                    lemma_unsettled(all_lists, map, j as int);
                }
                return None;
            },
            Some(expanded) => {
                read_tokens(&mut metadata, expanded.as_str());
            },
        }
        j += 1;
    }
    assert(all_lists.take(all_lists.len() as int) == all_lists);
    Some(metadata)
}

proof fn lemma_unsettled(lists: Seq<Seq<char>>, vars: Map<Seq<char>, Seq<char>>, i: int)
    requires
        0 <= i < lists.len(),
        settled(lists[i], vars, 0, usize::MAX as nat) is None,
    ensures
        gathered(lists, vars) is None,
    decreases lists.len(),
{
    if i < lists.len() - 1 {
        lemma_unsettled(lists.drop_last(), vars, i);
    }
}

}
