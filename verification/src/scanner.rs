//! Finding the source files of a project.
use vstd::prelude::*;

use crate::paths;
use crate::text;

verus! {

broadcast use vstd::string::group_string_axioms;

/// `rest` without what paths drop in front: separators and `.` parts.
pub open spec fn path_body(windows: bool, rest: Seq<char>) -> Seq<char>
    decreases rest.len(),
{
    if rest.len() > 0 && paths::is_sep(windows, rest[0]) {
        path_body(windows, rest.skip(1))
    } else if rest.len() > 1 && rest[0] == '.' && paths::is_sep(windows, rest[1]) {
        path_body(windows, rest.skip(2))
    } else if rest.len() == 1 && rest[0] == '.' {
        Seq::empty()
    } else {
        rest
    }
}

/// `path` without a leading `.` part.
pub open spec fn without_dot(windows: bool, path: Seq<char>) -> Seq<char> {
    if path.len() > 0 && path[0] == '.' && (path.len() == 1 || paths::is_sep(windows, path[1])) {
        path_body(windows, path.skip(1))
    } else {
        path
    }
}

/// The way a source file is named in build files.
pub open spec fn source_name(windows: bool, path: Seq<char>) -> Seq<char> {
    text::replaced(without_dot(windows, path), '\\', "/"@)
}

/// A C or C++ source file, by its extension.
pub open spec fn is_source(windows: bool, path: Seq<char>) -> bool {
    match paths::extension(windows, path) {
        None => false,
        Some(ext) => {
            let lower = text::lowered(ext);
            lower == "c"@ || lower == "cc"@ || lower == "cpp"@ || lower == "cxx"@
        },
    }
}

/// Some source file among `files` is named `name`.
pub open spec fn names_source(windows: bool, files: Seq<Seq<char>>, name: Seq<char>) -> bool {
    exists|i: int|
        0 <= i < files.len() && is_source(windows, #[trigger] files[i]) && source_name(windows, files[i]) == name
}

/// The items of `list` increase strictly.
pub open spec fn increases(list: Seq<Seq<char>>) -> bool {
    forall|i: int, j: int|
        0 <= i < j < list.len() ==> text::text_lt(#[trigger] list[i], #[trigger] list[j])
}

/// `found` names the source files among `files`, in order and each once.
pub open spec fn is_listing(windows: bool, files: Seq<Seq<char>>, found: Seq<Seq<char>>) -> bool {
    &&& increases(found)
    &&& forall|name: Seq<char>| #[trigger] found.contains(name) <==> names_source(windows, files, name)
}

/// The source files among `files`.
pub open spec fn sources_of(windows: bool, files: Seq<Seq<char>>) -> Seq<Seq<char>> {
    choose|found: Seq<Seq<char>>| is_listing(windows, files, found)
}

/// There is only one such list: it does not depend on the order in which the
/// files are met.
pub proof fn listing_is_unique(
    windows: bool,
    files: Seq<Seq<char>>,
    others: Seq<Seq<char>>,
    a: Seq<Seq<char>>,
    b: Seq<Seq<char>>,
)
    requires
        files.to_set() == others.to_set(),
        is_listing(windows, files, a),
        is_listing(windows, others, b),
    ensures
        a == b,
{
    assert forall|name: Seq<char>| names_source(windows, files, name) == names_source(windows, others, name) by {
        if names_source(windows, files, name) {
            let i = choose|i: int|
                0 <= i < files.len() && is_source(windows, #[trigger] files[i]) && source_name(windows, files[i])
                    == name;
            assert(files.to_set().contains(files[i]));
            assert(others.contains(files[i]));
        }
        if names_source(windows, others, name) {
            let i = choose|i: int|
                0 <= i < others.len() && is_source(windows, #[trigger] others[i]) && source_name(windows, others[i])
                    == name;
            assert(others.to_set().contains(others[i]));
            assert(files.contains(others[i]));
        }
    }
    assert forall|name: Seq<char>| a.contains(name) == b.contains(name) by {}
    lemma_increasing_unique(a, b);
}

proof fn lemma_increasing_unique(a: Seq<Seq<char>>, b: Seq<Seq<char>>)
    requires
        increases(a),
        increases(b),
        forall|name: Seq<char>| #[trigger] a.contains(name) <==> b.contains(name),
    ensures
        a == b,
    decreases a.len(),
{
    if a.len() == 0 {
        if b.len() > 0 {
            assert(b.contains(b[0]));
            assert(a.contains(b[0]));
        }
        assert(a =~= b);
    } else {
        let n = a.len() - 1;
        assert(a.contains(a[n]));
        assert(b.contains(a[n]));
        let m = b.len() - 1;
        assert(b.contains(b[m]));
        assert(a.contains(b[m]));
        let i = choose|i: int| 0 <= i < b.len() && b[i] == a[n];
        let j = choose|j: int| 0 <= j < a.len() && a[j] == b[m];
        if i != m {
            assert(text::text_lt(a[n], b[m]));
            if j != n {
                assert(text::text_lt(b[m], a[n]));
                text::lemma_text_lt_transitive(a[n], b[m], a[n]);
            }
            text::lemma_text_lt_irreflexive(a[n]);
        }
        let x = a.drop_last();
        let y = b.drop_last();
        assert forall|name: Seq<char>| #[trigger] x.contains(name) <==> y.contains(name) by {
            text::lemma_text_lt_irreflexive(a[n]);
            if x.contains(name) {
                let k = choose|k: int| 0 <= k < x.len() && x[k] == name;
                assert(a[k] == name);
                assert(a.contains(name));
                let l = choose|l: int| 0 <= l < b.len() && b[l] == name;
                assert(text::text_lt(a[k], a[n]));
                assert(l != m);
                assert(y[l] == name);
            }
            if y.contains(name) {
                let k = choose|k: int| 0 <= k < y.len() && y[k] == name;
                assert(b[k] == name);
                assert(b.contains(name));
                assert(a.contains(name));
                let l = choose|l: int| 0 <= l < a.len() && a[l] == name;
                assert(text::text_lt(b[k], b[m]));
                assert(l != n);
                assert(x[l] == name);
            }
        }
        lemma_increasing_unique(x, y);
        assert(x.push(a[n]) =~= a);
        assert(y.push(b[m]) =~= b);
    }
}

fn body_start(windows: bool, v: &Vec<char>, from: usize) -> (r: usize)
    requires
        from <= v@.len(),
    ensures
        from <= r <= v@.len(),
        v@.skip(r as int) == path_body(windows, v@.skip(from as int)),
{
    let mut i: usize = from;
    loop
        invariant
            from <= i <= v@.len(),
            path_body(windows, v@.skip(i as int)) == path_body(windows, v@.skip(from as int)),
        decreases v.len() - i,
    {
        let ghost rest = v@.skip(i as int);
        let left: usize = v.len() - i;
        if left > 0 && paths::separates(windows, v[i]) {
            assert(rest.skip(1) == v@.skip(i + 1));
            i += 1;
        } else if left > 1 && v[i] == '.' && paths::separates(windows, v[i + 1]) {
            assert(rest.skip(2) == v@.skip(i + 2));
            i += 2;
        } else if left == 1 && v[i] == '.' {
            assert(v@.skip(i + 1) =~= Seq::empty());
            return i + 1;
        } else {
            return i;
        }
    }
}

fn name_source(windows: bool, path: &str) -> (r: String)
    ensures
        r@ == source_name(windows, path@),
{
    let v = text::chars_of(path);
    let mut start: usize = 0;
    if v.len() > 0 && v[0] == '.' && (v.len() == 1 || paths::separates(windows, v[1])) {
        start = body_start(windows, &v, 1);
    } else {
        assert(v@.skip(0) == v@);
    }
    let rest = text::text_of(&v, start, v.len());
    assert(rest@ == v@.skip(start as int));
    text::replace(rest.as_str(), '\\', "/")
}

fn looks_like_source(windows: bool, path: &str) -> (r: bool)
    ensures
        r == is_source(windows, path@),
{
    match paths::extension_of(windows, path) {
        None => false,
        Some(ext) => {
            let lower = text::to_lower(ext.as_str());
            text::same_text(lower.as_str(), "c") || text::same_text(lower.as_str(), "cc")
                || text::same_text(lower.as_str(), "cpp") || text::same_text(
                lower.as_str(),
                "cxx",
            )
        },
    }
}

fn insert_sorted(list: &mut Vec<String>, name: String)
    requires
        increases(text::texts(old(list)@)),
    ensures
        increases(text::texts(final(list)@)),
        forall|other: Seq<char>| #[trigger]
            text::texts(final(list)@).contains(other) <==> (text::texts(old(list)@).contains(other)
                || other == name@),
{
    let ghost before = text::texts(list@);
    let ghost new = name@;
    let mut at: usize = list.len();
    while at > 0 && text::text_before(name.as_str(), list[at - 1].as_str())
        invariant
            at <= list@.len(),
            list@ == old(list)@,
            before == text::texts(list@),
            new == name@,
            forall|k: int| at <= k < before.len() ==> text::text_lt(new, #[trigger] before[k]),
        decreases at,
    {
        at -= 1;
    }
    if at > 0 && list[at - 1] == name {
        assert(before[at - 1] == new);
        return;
    }
    list.insert(at, name);
    let ghost after = text::texts(list@);
    proof {
        assert(after =~= before.insert(at as int, new));
        if at > 0 {
            text::lemma_text_lt_total(before[at - 1], new);
        }
        assert forall|i: int, j: int| 0 <= i < j < after.len() implies text::text_lt(
            #[trigger] after[i],
            #[trigger] after[j],
        ) by {
            if j == at {
                if i < at - 1 {
                    text::lemma_text_lt_transitive(before[i], before[at - 1], new);
                }
            } else if i < at && j > at {
                assert(after[j] == before[j - 1]);
            } else if i > at {
                assert(after[i] == before[i - 1] && after[j] == before[j - 1]);
            }
        }
        assert forall|other: Seq<char>| #[trigger] after.contains(other) <==> (before.contains(
            other,
        ) || other == new) by {
            if after.contains(other) {
                let k = choose|k: int| 0 <= k < after.len() && after[k] == other;
                if k < at {
                    assert(before[k] == other);
                } else if k > at {
                    assert(before[k - 1] == other);
                }
            }
            if before.contains(other) {
                let k = choose|k: int| 0 <= k < before.len() && before[k] == other;
                let m = if k < at { k } else { k + 1 };
                assert(after[m] == other);
            }
            assert(after[at as int] == new);
        }
    }
}

/// The source files among the files under a directory, sorted and each once, by
/// the rules of Windows for paths or by those of other systems.
pub fn discover_files(files: &Vec<String>, windows: bool) -> (r: Vec<String>)
    ensures
        is_listing(windows, text::texts(files@), text::texts(r@)),
        text::texts(r@) == sources_of(windows, text::texts(files@)),
{
    let ghost all = text::texts(files@);
    let mut out: Vec<String> = Vec::new();
    let mut i: usize = 0;
    assert(text::texts(out@).len() == 0);
    while i < files.len()
        invariant
            i <= files@.len(),
            all == text::texts(files@),
            increases(text::texts(out@)),
            forall|name: Seq<char>| #[trigger]
                text::texts(out@).contains(name) <==> names_source(windows, all.take(i as int), name),
        decreases files.len() - i,
    {
        let ghost before = text::texts(out@);
        let path = files[i].as_str();
        assert(all[i as int] == path@);
        let wanted = looks_like_source(windows, path);
        if wanted {
            insert_sorted(&mut out, name_source(windows, path));
        }
        proof {
            let more = all.take(i + 1);
            let less = all.take(i as int);
            assert forall|name: Seq<char>| names_source(windows, more, name) <==> (names_source(windows, less, name)
                || (wanted && name == source_name(windows, path@))) by {
                if names_source(windows, less, name) {
                    let k = choose|k: int|
                        0 <= k < less.len() && is_source(windows, #[trigger] less[k]) && source_name(windows, less[k])
                            == name;
                    assert(more[k] == less[k]);
                }
                if names_source(windows, more, name) {
                    let k = choose|k: int|
                        0 <= k < more.len() && is_source(windows, #[trigger] more[k]) && source_name(windows, more[k])
                            == name;
                    if k < i {
                        assert(less[k] == more[k]);
                    }
                }
                assert(more[i as int] == path@);
            }
        }
        i += 1;
    }
    assert(all.take(all.len() as int) == all);
    proof {
        listing_is_unique(windows, all, all, text::texts(out@), sources_of(windows, all));
    }
    out
}

// ---------------------------------------------------------------------------
// Laws
// ---------------------------------------------------------------------------

proof fn lemma_last_dot(stem: Seq<char>, ext: Seq<char>)
    requires
        !ext.contains('.'),
    ensures
        paths::after_last_dot(stem.push('.') + ext) == stem.len() + 1,
    decreases ext.len(),
{
    let name = stem.push('.') + ext;
    if ext.len() == 0 {
        assert(name =~= stem.push('.'));
    } else {
        assert(ext[ext.len() - 1] == ext.last());
        assert(name.last() == ext.last());
        assert(!ext.drop_last().contains('.')) by {
            if ext.drop_last().contains('.') {
                let k = choose|k: int| 0 <= k < ext.drop_last().len() && ext.drop_last()[k] == '.';
                assert(ext[k] == '.');
            }
        }
        lemma_last_dot(stem, ext.drop_last());
        assert(name.drop_last() =~= stem.push('.') + ext.drop_last());
    }
}

/// A source file is one whose name ends in `.c`, `.cc`, `.cpp` or `.cxx`, in small or
/// capital letters, after something else; no other file is.
pub proof fn sources_are_told_by_their_endings(
    windows: bool,
    path: Seq<char>,
    stem: Seq<char>,
    ext: Seq<char>,
)
    requires
        stem.len() > 0,
        !ext.contains('.'),
        paths::file_name(windows, path) == Some(stem.push('.') + ext),
    ensures
        is_source(windows, path) <==> {
            ||| ext.len() == 1 && (ext[0] == 'c' || ext[0] == 'C')
            ||| ext.len() == 2 && (ext[0] == 'c' || ext[0] == 'C') && (ext[1] == 'c' || ext[1]
                == 'C')
            ||| ext.len() == 3 && (ext[0] == 'c' || ext[0] == 'C') && (ext[1] == 'p' || ext[1]
                == 'P') && (ext[2] == 'p' || ext[2] == 'P')
            ||| ext.len() == 3 && (ext[0] == 'c' || ext[0] == 'C') && (ext[1] == 'x' || ext[1]
                == 'X') && (ext[2] == 'x' || ext[2] == 'X')
        },
{
    lemma_last_dot(stem, ext);
    let name = stem.push('.') + ext;
    assert(name.skip(stem.len() as int + 1) =~= ext);
    assert(paths::extension(windows, path) == Some(ext));
    reveal_strlit("c");
    reveal_strlit("cc");
    reveal_strlit("cpp");
    reveal_strlit("cxx");
    let lower = text::lowered(ext);
    assert(lower.len() == ext.len());
    assert("c"@.len() == 1 && "cc"@.len() == 2 && "cpp"@.len() == 3 && "cxx"@.len() == 3);
    if ext.len() >= 1 {
        assert(lower[0] == text::lower_char(ext[0]));
    }
    if ext.len() >= 2 {
        assert(lower[1] == text::lower_char(ext[1]));
    }
    if ext.len() >= 3 {
        assert(lower[2] == text::lower_char(ext[2]));
    }
    if ext.len() == 1 && lower[0] == 'c' {
        assert(lower =~= "c"@);
    }
    if ext.len() == 2 && lower[0] == 'c' && lower[1] == 'c' {
        assert(lower =~= "cc"@);
    }
    if ext.len() == 3 && lower[0] == 'c' && lower[1] == 'p' && lower[2] == 'p' {
        assert(lower =~= "cpp"@);
    }
    if ext.len() == 3 && lower[0] == 'c' && lower[1] == 'x' && lower[2] == 'x' {
        assert(lower =~= "cxx"@);
    }
    if lower == "c"@ {
        assert(lower[0] == 'c');
    }
    if lower == "cc"@ {
        assert(lower[0] == 'c' && lower[1] == 'c');
    }
    if lower == "cpp"@ {
        assert(lower[0] == 'c' && lower[1] == 'p' && lower[2] == 'p');
    }
    if lower == "cxx"@ {
        assert(lower[0] == 'c' && lower[1] == 'x' && lower[2] == 'x');
    }
}

/// A hidden file with nothing but an ending for a name is no source file, and neither
/// is one without an ending.
pub proof fn names_need_more_than_an_ending(windows: bool, path: Seq<char>, ext: Seq<char>)
    requires
        !ext.contains('.'),
    ensures
        paths::file_name(windows, path) == Some(seq!['.'] + ext) ==> !is_source(windows, path),
        paths::file_name(windows, path) == Some(ext) ==> !is_source(windows, path),
        paths::file_name(windows, path) is None ==> !is_source(windows, path),
{
    let nothing = Seq::<char>::empty();
    lemma_last_dot(nothing, ext);
    assert(nothing.push('.') + ext =~= seq!['.'] + ext);
    lemma_no_dot(ext);
}

proof fn lemma_no_dot(name: Seq<char>)
    requires
        !name.contains('.'),
    ensures
        paths::after_last_dot(name) == 0,
    decreases name.len(),
{
    if name.len() > 0 {
        assert(name[name.len() - 1] == name.last());
        assert(!name.drop_last().contains('.')) by {
            if name.drop_last().contains('.') {
                let k = choose|k: int| 0 <= k < name.drop_last().len() && name.drop_last()[k] == '.';
                assert(name[k] == '.');
            }
        }
        lemma_no_dot(name.drop_last());
    }
}

/// A source file is named by its path, without a `./` in front.
pub proof fn sources_are_named_by_their_paths(windows: bool, path: Seq<char>)
    requires
        path.len() > 0,
        path[0] != '.',
        path[0] != '/',
        !path.contains('\\'),
    ensures
        source_name(windows, path) == path,
        source_name(windows, seq!['.', '/'] + path) == path,
{
    let nothing = Seq::<char>::empty();
    text::replacing_is_piece_by_piece(path, nothing, '\\', "/"@);
    let dotted = seq!['.', '/'] + path;
    assert(path[0] != '\\') by {
        if path[0] == '\\' {
            assert(path.contains(path[0]));
        }
    }
    assert(dotted.skip(1) =~= seq!['/'] + path);
    assert((seq!['/'] + path).skip(1) =~= path);
    reveal_with_fuel(path_body, 2);
    assert(path_body(windows, seq!['/'] + path) == path);
}

/// A list of sources is in order and holds no name twice.
pub proof fn listed_sources_are_in_order(
    windows: bool,
    files: Seq<Seq<char>>,
    found: Seq<Seq<char>>,
    i: int,
    j: int,
)
    requires
        is_listing(windows, files, found),
        0 <= i < j < found.len(),
    ensures
        text::text_lt(found[i], found[j]),
        found[i] != found[j],
{
    text::lemma_text_lt_irreflexive(found[i]);
}

}
