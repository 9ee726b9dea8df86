//! Paths as texts, by the rules of the system they are for.
//!
//! The parts of a path are separated by `/`, and on Windows by `\` as well. On
//! Windows a path may begin with the drive, share or device that it is on, such as
//! `C:`, `\\server\share`, `\\.\COM1` or the verbatim `\\?\C:`; in a path with a verbatim
//! beginning only `\` separates and a `.` is a part like any other. Whether the
//! rules of Windows hold is given by `windows`.
use vstd::prelude::*;
use vstd::string::*;

use crate::text;

verus! {

broadcast use vstd::string::group_string_axioms;

// ---------------------------------------------------------------------------
// Model
// ---------------------------------------------------------------------------

/// `s` without the prefix by which Windows marks a verbatim path.
pub open spec fn without_verbatim_prefix(s: Seq<char>) -> Seq<char> {
    if "\\\\?\\UNC\\"@.is_prefix_of(s) {
        "\\\\"@ + s.skip("\\\\?\\UNC\\"@.len() as int)
    } else if "\\\\?\\"@.is_prefix_of(s) {
        s.skip("\\\\?\\"@.len() as int)
    } else {
        s
    }
}

/// `path` with `/` as its only separator.
pub open spec fn normalized(path: Seq<char>) -> Seq<char> {
    text::replaced(without_verbatim_prefix(path), '\\', "/"@)
}

/// `c` separates the parts of a path.
pub open spec fn is_sep(windows: bool, c: char) -> bool {
    c == '/' || (windows && c == '\\')
}

/// The separator that is written between parts.
pub open spec fn main_sep(windows: bool) -> Seq<char> {
    if windows {
        "\\"@
    } else {
        "/"@
    }
}

/// A letter that can stand for a drive.
pub open spec fn is_letter(c: char) -> bool {
    ('a' <= c && c <= 'z') || ('A' <= c && c <= 'Z')
}

/// How many characters in front of `s` stand before its first separator.
pub open spec fn piece_len(s: Seq<char>, verbatim: bool) -> int
    decreases s.len(),
{
    if s.len() == 0 || s[0] == '\\' || (!verbatim && s[0] == '/') {
        0
    } else {
        1 + piece_len(s.drop_first(), verbatim)
    }
}

/// What a Windows path begins with: its length, whether it is verbatim, and
/// whether it is a bare drive.
#[verifier::ext_equal]
pub struct LeadView {
    pub len: int,
    pub verbatim: bool,
    pub drive: bool,
}

/// A drive is named in `path` at the position `at`.
pub open spec fn names_drive(path: Seq<char>, at: int) -> bool {
    at + 1 < path.len() && is_letter(path[at]) && path[at + 1] == ':'
}

/// The length of the share that is named after a server that ends at `end`.
pub open spec fn share_len(path: Seq<char>, end: int, verbatim: bool) -> int {
    if end < path.len() {
        piece_len(path.skip(end + 1), verbatim)
    } else {
        0
    }
}

/// How long the verbatim beginning of `path` is: `\\?\` and a share, a drive or a name.
pub open spec fn verbatim_len(path: Seq<char>) -> int {
    if path.len() >= 8 && path[4] == 'U' && path[5] == 'N' && path[6] == 'C' && is_sep(
        true,
        path[7],
    ) {
        let server = piece_len(path.skip(8), true);
        let share = share_len(path, 8 + server, true);
        8 + server + (if share > 0 {
            1 + share
        } else {
            0
        })
    } else if names_drive(path, 4) && (path.len() == 6 || is_sep(true, path[6])) {
        6
    } else {
        4 + piece_len(path.skip(4), true)
    }
}

/// What `path` begins with before its parts.
pub open spec fn lead(windows: bool, path: Seq<char>) -> Option<LeadView> {
    if !windows {
        None
    } else if path.len() >= 2 && is_sep(true, path[0]) && is_sep(true, path[1]) {
        if path.len() >= 4 && path[0] == '\\' && path[1] == '\\' && path[2] == '?' && path[3]
            == '\\' {
            Some(LeadView { len: verbatim_len(path), verbatim: true, drive: false })
        } else if path.len() >= 4 && path[2] == '.' && is_sep(true, path[3]) {
            let device = piece_len(path.skip(4), false);
            Some(LeadView { len: 4 + device, verbatim: false, drive: false })
        } else {
            let server = piece_len(path.skip(2), false);
            let share = share_len(path, 2 + server, false);
            if server > 0 && share > 0 {
                Some(LeadView { len: 2 + server + 1 + share, verbatim: false, drive: false })
            } else {
                None
            }
        }
    } else if names_drive(path, 0) {
        Some(LeadView { len: 2, verbatim: false, drive: true })
    } else {
        None
    }
}

/// How many characters of `path` belong to what it begins with.
pub open spec fn lead_len(windows: bool, path: Seq<char>) -> int {
    match lead(windows, path) {
        Some(l) => l.len,
        None => 0,
    }
}

/// `path` has a verbatim beginning.
pub open spec fn is_verbatim(windows: bool, path: Seq<char>) -> bool {
    lead(windows, path) is Some && lead(windows, path)->0.verbatim
}

/// A separator follows what `path` begins with.
pub open spec fn has_root_sep(windows: bool, path: Seq<char>) -> bool {
    lead_len(windows, path) < path.len() && is_sep(windows, path[lead_len(windows, path)])
}

/// `path` begins at a root.
pub open spec fn has_root(windows: bool, path: Seq<char>) -> bool {
    has_root_sep(windows, path) || (lead(windows, path) is Some && !lead(windows, path)->0.drive)
}

/// `path` does not depend on where it is looked at from.
pub open spec fn is_absolute(windows: bool, path: Seq<char>) -> bool {
    has_root(windows, path) && (windows ==> lead(windows, path) is Some)
}

/// Where the parts of `path` begin.
pub open spec fn body_start(windows: bool, path: Seq<char>) -> int {
    if has_root_sep(windows, path) {
        lead_len(windows, path) + 1
    } else {
        lead_len(windows, path)
    }
}

/// `c` separates the parts of a path, given whether that is verbatim.
pub open spec fn splits(windows: bool, verbatim: bool, c: char) -> bool {
    if verbatim {
        c == '\\'
    } else {
        is_sep(windows, c)
    }
}

/// The pieces of a split path that are parts of it: a `.` counts only in front.
pub open spec fn kept_pieces(pieces: Seq<Seq<char>>) -> Seq<Seq<char>>
    decreases pieces.len(),
{
    if pieces.len() == 0 {
        Seq::empty()
    } else {
        let last = pieces.last();
        let before = kept_pieces(pieces.drop_last());
        if last.len() == 0 || (last == "."@ && pieces.len() > 1) {
            before
        } else {
            before.push(last)
        }
    }
}

/// `path` with `/` for every separator.
pub open spec fn slashed(windows: bool, path: Seq<char>) -> Seq<char> {
    if windows {
        text::replaced(path, '\\', "/"@)
    } else {
        path
    }
}

/// The parts of a path that begins with no drive, share or device.
pub open spec fn parts(windows: bool, path: Seq<char>) -> Seq<Seq<char>> {
    kept_pieces(text::split(slashed(windows, path), '/'))
}

/// The pieces that are not empty.
pub open spec fn filled(pieces: Seq<Seq<char>>) -> Seq<Seq<char>>
    decreases pieces.len(),
{
    if pieces.len() == 0 {
        Seq::empty()
    } else if pieces.last().len() == 0 {
        filled(pieces.drop_last())
    } else {
        filled(pieces.drop_last()).push(pieces.last())
    }
}

/// Where the directory `list` leads when the parts `more` are followed one by one.
pub open spec fn followed(list: Seq<Seq<char>>, more: Seq<Seq<char>>) -> Seq<Seq<char>>
    decreases more.len(),
{
    if more.len() == 0 {
        list
    } else {
        let before = followed(list, more.drop_last());
        if more.last() == "."@ {
            before
        } else if more.last() == ".."@ {
            if before.len() > 0 && before.last() != "."@ && before.last() != ".."@ {
                before.drop_last()
            } else {
                before
            }
        } else {
            before.push(more.last())
        }
    }
}

/// `part` seen from the directory `base` that has a verbatim beginning: no `.` and
/// no `..` of `part` is left in it.
pub open spec fn verbatim_join(base: Seq<char>, part: Seq<char>) -> Seq<char> {
    let front = base.take(lead_len(true, base));
    let from = if has_root(true, part) {
        Seq::empty()
    } else {
        filled(text::split(base.skip(body_start(true, base)), '\\'))
    };
    let list = followed(from, parts(true, part));
    if list.len() > 0 || has_root(true, part) || has_root_sep(true, base) {
        front + "\\"@ + text::joined(list, "\\"@)
    } else {
        front
    }
}

/// A separator is written between `base` and what is seen from it.
pub open spec fn needs_sep(windows: bool, base: Seq<char>) -> bool {
    &&& base.len() > 0
    &&& !is_sep(windows, base.last())
    &&& !(lead(windows, base) is Some && lead(windows, base)->0.drive && base.len() == 2)
}

/// `part` seen from the directory `base`.
#[verifier::opaque]
pub open spec fn path_join(windows: bool, base: Seq<char>, part: Seq<char>) -> Seq<char> {
    if is_absolute(windows, part) || lead(windows, part) is Some {
        part
    } else if is_verbatim(windows, base) && part.len() > 0 {
        verbatim_join(base, part)
    } else if has_root(windows, part) {
        base.take(lead_len(windows, base)) + part
    } else if needs_sep(windows, base) {
        base + main_sep(windows) + part
    } else {
        base + part
    }
}

/// `path` without separators and `.` parts at its end, down to `start` characters.
pub open spec fn tail_trimmed(
    windows: bool,
    verbatim: bool,
    start: int,
    path: Seq<char>,
) -> Seq<char>
    decreases path.len(),
{
    if path.len() > 0 && path.len() > start && splits(windows, verbatim, path.last()) {
        tail_trimmed(windows, verbatim, start, path.drop_last())
    } else if !verbatim && path.len() > 1 && path.len() > start && path.last() == '.' && splits(
        windows,
        verbatim,
        path[path.len() - 2],
    ) {
        tail_trimmed(windows, verbatim, start, path.drop_last())
    } else {
        path
    }
}

/// How many characters of `path` stand before its last part, which begins after
/// `start` characters or later.
pub open spec fn before_last_part(
    windows: bool,
    verbatim: bool,
    start: int,
    path: Seq<char>,
) -> nat
    decreases path.len(),
{
    if path.len() == 0 || path.len() <= start || splits(windows, verbatim, path.last()) {
        path.len()
    } else {
        before_last_part(windows, verbatim, start, path.drop_last())
    }
}

/// The directory that holds `path`.
#[verifier::opaque]
pub open spec fn parent(windows: bool, path: Seq<char>) -> Option<Seq<char>> {
    let start = body_start(windows, path);
    let verbatim = is_verbatim(windows, path);
    let t = tail_trimmed(windows, verbatim, start, path);
    if t.len() <= start {
        None
    } else {
        let n = before_last_part(windows, verbatim, start, t);
        Some(tail_trimmed(windows, verbatim, start, t.take(n as int)))
    }
}

/// The last part of `path`, if that is a name.
#[verifier::opaque]
pub open spec fn file_name(windows: bool, path: Seq<char>) -> Option<Seq<char>> {
    let start = body_start(windows, path);
    let verbatim = is_verbatim(windows, path);
    let t = tail_trimmed(windows, verbatim, start, path);
    let last = t.skip(before_last_part(windows, verbatim, start, t) as int);
    if last.len() == 0 || last == seq!['.'] || last == seq!['.', '.'] {
        None
    } else {
        Some(last)
    }
}

/// The position after the last `.` of `name`, or 0.
pub open spec fn after_last_dot(name: Seq<char>) -> nat
    decreases name.len(),
{
    if name.len() == 0 || name.last() == '.' {
        name.len()
    } else {
        after_last_dot(name.drop_last())
    }
}

/// What follows the last `.` in the file name of `path`, unless that `.` is its first character.
pub open spec fn extension(windows: bool, path: Seq<char>) -> Option<Seq<char>> {
    match file_name(windows, path) {
        Some(name) => if after_last_dot(name) <= 1 {
            None
        } else {
            Some(name.skip(after_last_dot(name) as int))
        },
        None => None,
    }
}

/// The name by which a manifest is shown: that of its directory, or else its path.
pub open spec fn manifest_label(windows: bool, manifest: Seq<char>) -> Seq<char> {
    match parent(windows, manifest) {
        Some(dir) => match file_name(windows, dir) {
            Some(name) => name,
            None => manifest,
        },
        None => manifest,
    }
}

// ---------------------------------------------------------------------------
// Laws
// ---------------------------------------------------------------------------

/// Joining a relative part keeps what comes before it, unless `base` is verbatim.
pub proof fn joining_keeps_the_base(windows: bool, base: Seq<char>, part: Seq<char>)
    requires
        lead(windows, part) is None,
        !has_root(windows, part),
        !is_verbatim(windows, base),
    ensures
        base.is_prefix_of(path_join(windows, base, part)),
        part.is_suffix_of(path_join(windows, base, part)),
{
    reveal(path_join);
    let r = path_join(windows, base, part);
    assert(r.subrange(0, base.len() as int) =~= base);
    assert(r.subrange(r.len() - part.len(), r.len() as int) =~= part);
}

/// A plain name: one part that is neither `.` nor `..` and reads like no drive.
pub open spec fn is_plain_name(windows: bool, name: Seq<char>) -> bool {
    &&& name.len() > 0
    &&& name != "."@
    &&& name != ".."@
    &&& forall|i: int| 0 <= i < name.len() ==> !is_sep(windows, #[trigger] name[i])
    &&& lead(windows, name) is None
}

/// What stands in front of a name that is seen from `base`.
pub open spec fn name_front(windows: bool, base: Seq<char>) -> Seq<char> {
    if is_verbatim(windows, base) {
        let list = filled(text::split(base.skip(body_start(windows, base)), '\\'));
        let front = base.take(lead_len(windows, base)) + "\\"@;
        if list.len() == 0 {
            front
        } else {
            front + text::joined(list, "\\"@) + "\\"@
        }
    } else if needs_sep(windows, base) {
        base + main_sep(windows)
    } else {
        base
    }
}

/// A plain name stands at the end of the path that it makes with a directory.
pub proof fn joining_a_name(windows: bool, base: Seq<char>, name: Seq<char>)
    requires
        is_plain_name(windows, name),
    ensures
        path_join(windows, base, name) == name_front(windows, base) + name,
{
    reveal(path_join);
    assert(!is_sep(windows, name[0]));
    assert(!has_root(windows, name));
    if is_verbatim(windows, base) {
        assert(!name.contains('\\')) by {
            if name.contains('\\') {
                let i = choose|i: int| 0 <= i < name.len() && name[i] == '\\';
                assert(is_sep(windows, name[i]));
            }
        }
        assert(!name.contains('/')) by {
            if name.contains('/') {
                let i = choose|i: int| 0 <= i < name.len() && name[i] == '/';
                assert(is_sep(windows, name[i]));
            }
        }
        lemma_replaced_keeps(name, '\\', "/"@);
        text::split_of_one_piece(name, '/');
        let pieces = seq![name];
        assert(text::split(slashed(true, name), '/') == pieces);
        assert(kept_pieces(pieces.drop_last()) =~= Seq::empty());
        assert(kept_pieces(pieces) =~= pieces);
        let list = filled(text::split(base.skip(body_start(windows, base)), '\\'));
        assert(followed(list, pieces.drop_last()) == list);
        assert(followed(list, pieces) == list.push(name));
        assert(list.push(name).drop_last() =~= list);
        let r = path_join(windows, base, name);
        assert(r == base.take(lead_len(windows, base)) + "\\"@ + text::joined(
            list.push(name),
            "\\"@,
        ));
        if list.len() == 0 {
            assert(text::joined(list.push(name), "\\"@) == name);
        }
        assert(r =~= name_front(windows, base) + name);
    } else {
        assert(path_join(windows, base, name) =~= name_front(windows, base) + name);
    }
}

proof fn lemma_piece_fits(s: Seq<char>, verbatim: bool)
    ensures
        0 <= piece_len(s, verbatim) <= s.len(),
    decreases s.len(),
{
    if s.len() > 0 {
        lemma_piece_fits(s.drop_first(), verbatim);
    }
}

proof fn lemma_lead_fits(windows: bool, path: Seq<char>)
    ensures
        0 <= lead_len(windows, path) <= path.len(),
        0 <= body_start(windows, path) <= path.len(),
        lead(windows, path) is Some ==> lead_len(windows, path) >= 2,
{
    if path.len() >= 8 {
        lemma_piece_fits(path.skip(8), true);
        let end = 8 + piece_len(path.skip(8), true);
        if end < path.len() {
            lemma_piece_fits(path.skip(end + 1), true);
        }
    }
    if path.len() >= 4 {
        lemma_piece_fits(path.skip(4), true);
        lemma_piece_fits(path.skip(4), false);
    }
    if path.len() >= 2 {
        lemma_piece_fits(path.skip(2), false);
        let end = 2 + piece_len(path.skip(2), false);
        if end < path.len() {
            lemma_piece_fits(path.skip(end + 1), false);
        }
    }
}

/// What stands in front of a name ends as the directory does, with one separator.
pub proof fn name_front_ends_as_the_base(windows: bool, base: Seq<char>)
    requires
        base.len() > 2,
        !is_sep(windows, base.last()),
    ensures
        ({
            let front = name_front(windows, base);
            &&& front.len() >= 2
            &&& front.subrange(front.len() - 2, front.len() as int) == seq![base.last()] + main_sep(
                windows,
            )
        }),
{
    reveal_strlit("/");
    reveal_strlit("\\");
    let front = name_front(windows, base);
    let want = seq![base.last()] + main_sep(windows);
    if is_verbatim(windows, base) {
        lemma_lead_fits(windows, base);
        let body = base.skip(body_start(windows, base));
        let pieces = text::split(body, '\\');
        let list = filled(pieces);
        if body.len() > 0 {
            assert(body.last() == base.last());
            text::split_ends_as_the_text(body, '\\');
            assert(list.last() == pieces.last());
            let all = text::joined(list, "\\"@);
            assert(all.len() > 0 && all.last() == base.last());
            assert(front.subrange(front.len() - 2, front.len() as int) =~= want);
        } else {
            text::split_of_one_piece(body, '\\');
            assert(pieces.len() == 1 && pieces.last() == body);
            assert(filled(pieces.drop_last()) =~= Seq::empty());
            assert(list =~= Seq::empty());
            assert(lead_len(windows, base) == base.len());
            assert(base.take(base.len() as int) =~= base);
            assert(front.subrange(front.len() - 2, front.len() as int) =~= want);
        }
    } else {
        assert(front.subrange(front.len() - 2, front.len() as int) =~= want);
    }
}

proof fn lemma_filled(pieces: Seq<Seq<char>>, c: char)
    requires
        forall|i: int| 0 <= i < pieces.len() ==> !(#[trigger] pieces[i]).contains(c),
    ensures
        forall|i: int|
            0 <= i < filled(pieces).len() ==> (#[trigger] filled(pieces)[i]).len() > 0
                && !filled(pieces)[i].contains(c),
    decreases pieces.len(),
{
    if pieces.len() > 0 {
        let front = pieces.drop_last();
        assert forall|i: int| 0 <= i < front.len() implies !(#[trigger] front[i]).contains(c) by {
            assert(front[i] == pieces[i]);
        }
        lemma_filled(front, c);
        assert(!pieces[pieces.len() - 1].contains(c));
        let all = filled(pieces);
        assert forall|i: int| 0 <= i < all.len() implies (#[trigger] all[i]).len() > 0
            && !all[i].contains(c) by {
            if i < filled(front).len() {
                assert(all[i] == filled(front)[i]);
            }
        }
    }
}

proof fn lemma_filled_keeps(pieces: Seq<Seq<char>>)
    requires
        forall|i: int| 0 <= i < pieces.len() ==> (#[trigger] pieces[i]).len() > 0,
    ensures
        filled(pieces) == pieces,
    decreases pieces.len(),
{
    if pieces.len() > 0 {
        let front = pieces.drop_last();
        assert forall|i: int| 0 <= i < front.len() implies (#[trigger] front[i]).len() > 0 by {
            assert(front[i] == pieces[i]);
        }
        lemma_filled_keeps(front);
        assert(pieces[pieces.len() - 1].len() > 0);
        assert(front.push(pieces.last()) =~= pieces);
    } else {
        assert(filled(pieces) =~= pieces);
    }
}

/// A path that ends in a plain name is followed by one separator when another name
/// is seen from it, as long as it begins as the directory does that it was made from.
pub proof fn joined_names_are_settled(windows: bool, base: Seq<char>, name: Seq<char>)
    requires
        is_plain_name(windows, name),
        lead(windows, path_join(windows, base, name)) == lead(windows, base),
    ensures
        name_front(windows, path_join(windows, base, name)) == path_join(windows, base, name)
            + main_sep(windows),
        lead_len(windows, base) < path_join(windows, base, name).len(),
{
    reveal_strlit("/");
    reveal_strlit("\\");
    let path = path_join(windows, base, name);
    joining_a_name(windows, base, name);
    lemma_lead_fits(windows, base);
    assert(!is_sep(windows, name[name.len() - 1]));
    assert(path.last() == name.last());
    if is_verbatim(windows, base) {
        let l = lead_len(windows, base);
        let pieces = text::split(base.skip(body_start(windows, base)), '\\');
        let list = filled(pieces);
        text::lemma_split_pieces(base.skip(body_start(windows, base)), '\\');
        lemma_filled(pieces, '\\');
        let more = list.push(name);
        assert(!name.contains('\\')) by {
            if name.contains('\\') {
                let i = choose|i: int| 0 <= i < name.len() && name[i] == '\\';
                assert(is_sep(windows, name[i]));
            }
        }
        assert forall|i: int| 0 <= i < more.len() implies (#[trigger] more[i]).len() > 0
            && !more[i].contains('\\') by {
            if i < list.len() {
                assert(more[i] == list[i]);
            }
        }
        assert(more.drop_last() =~= list);
        let tail = text::joined(more, "\\"@);
        assert(path =~= base.take(l) + "\\"@ + tail);
        assert(path[l] == '\\');
        assert(body_start(windows, path) == l + 1);
        assert(path.skip(l + 1) =~= tail);
        assert("\\"@ =~= seq!['\\']);
        text::split_of_joined(more, '\\');
        lemma_filled_keeps(more);
        assert(path.take(l) =~= base.take(l));
        assert(name_front(windows, path) =~= path + "\\"@);
    } else {
        assert(needs_sep(windows, path));
    }
}

proof fn lemma_before_last_part(
    windows: bool,
    verbatim: bool,
    start: int,
    front: Seq<char>,
    name: Seq<char>,
)
    requires
        front.len() > 0,
        start <= front.len(),
        splits(windows, verbatim, front.last()),
        forall|i: int| 0 <= i < name.len() ==> !splits(windows, verbatim, #[trigger] name[i]),
    ensures
        before_last_part(windows, verbatim, start, front + name) == front.len(),
    decreases name.len(),
{
    if name.len() == 0 {
        assert(front + name =~= front);
    } else {
        let less = name.drop_last();
        assert((front + name).drop_last() =~= front + less);
        assert(!splits(windows, verbatim, name[name.len() - 1]));
        assert forall|i: int| 0 <= i < less.len() implies !splits(
            windows,
            verbatim,
            #[trigger] less[i],
        ) by {
            assert(less[i] == name[i]);
        }
        lemma_before_last_part(windows, verbatim, start, front, less);
    }
}

/// A plain name is the last part of the path that it makes with a directory, and
/// that directory holds the path, where one separator is written between the two
/// and the path begins as the directory does.
pub proof fn a_name_lies_in_its_directory(windows: bool, base: Seq<char>, name: Seq<char>)
    requires
        is_plain_name(windows, name),
        !is_sep(windows, base.last()),
        base.last() != '.',
        name_front(windows, base) == base + main_sep(windows),
        lead(windows, path_join(windows, base, name)) == lead(windows, base),
        lead_len(windows, base) < base.len(),
    ensures
        parent(windows, path_join(windows, base, name)) == Some(base),
        file_name(windows, path_join(windows, base, name)) == Some(name),
{
    reveal(parent);
    reveal(file_name);
    reveal_strlit("/");
    reveal_strlit("\\");
    reveal_strlit(".");
    reveal_strlit("..");
    let path = path_join(windows, base, name);
    let front = base + main_sep(windows);
    let verbatim = is_verbatim(windows, path);
    let start = body_start(windows, path);
    joining_a_name(windows, base, name);
    lemma_lead_fits(windows, base);
    assert(path =~= front + name);
    assert(path[lead_len(windows, base)] == base[lead_len(windows, base)]);
    assert(start == body_start(windows, base) && start < base.len());
    assert(!is_sep(windows, name[name.len() - 1]));
    assert("."@ =~= seq!['.']);
    assert(".."@ =~= seq!['.', '.']);
    if name.last() == '.' {
        if name.len() == 1 {
            assert(name =~= "."@);
        }
        assert(!is_sep(windows, name[name.len() - 2]));
        assert(path[path.len() - 2] == name[name.len() - 2]);
    }
    assert(tail_trimmed(windows, verbatim, start, path) == path);
    assert forall|i: int| 0 <= i < name.len() implies !splits(
        windows,
        verbatim,
        #[trigger] name[i],
    ) by {
        assert(!is_sep(windows, name[i]));
    }
    lemma_before_last_part(windows, verbatim, start, front, name);
    assert(path.take(front.len() as int) =~= front);
    assert(front.drop_last() =~= base);
    assert(tail_trimmed(windows, verbatim, start, base) == base);
    assert(tail_trimmed(windows, verbatim, start, front) == base);
    assert(path.skip(front.len() as int) =~= name);
}

/// Where only `/` separates, a path is absolute if it begins with `/`, and joining
/// writes one `/` between two paths.
pub proof fn plain_paths(base: Seq<char>, part: Seq<char>)
    ensures
        is_absolute(false, part) == (part.len() > 0 && part[0] == '/'),
        path_join(false, base, part) == (if part.len() > 0 && part[0] == '/' {
            part
        } else if base.len() == 0 || base.last() == '/' {
            base + part
        } else {
            base + "/"@ + part
        }),
{
    reveal(path_join);
}

/// A normalized path holds no backslash.
pub proof fn normalized_has_no_backslash(path: Seq<char>)
    ensures
        !normalized(path).contains('\\'),
{
    reveal_strlit("/");
    lemma_replaced_has_none(without_verbatim_prefix(path), '\\', "/"@);
}

proof fn lemma_replaced_has_none(s: Seq<char>, from: char, to: Seq<char>)
    requires
        !to.contains(from),
    ensures
        !text::replaced(s, from, to).contains(from),
    decreases s.len(),
{
    if s.len() > 0 {
        let before = text::replaced(s.drop_last(), from, to);
        lemma_replaced_has_none(s.drop_last(), from, to);
        let after = text::replaced(s, from, to);
        if after.contains(from) {
            let i = choose|i: int| 0 <= i < after.len() && after[i] == from;
            if i < before.len() {
                assert(before[i] == from);
            } else if s.last() == from {
                assert(to[i - before.len()] == from);
            }
        }
    }
}

/// A path whose separators have been written as `/` holds no backslash.
pub proof fn slashed_has_no_backslash(path: Seq<char>)
    ensures
        !slashed(true, path).contains('\\'),
{
    reveal_strlit("/");
    lemma_replaced_has_none(path, '\\', "/"@);
}

/// Normalizing twice is the same as normalizing once.
pub proof fn normalizing_again_changes_nothing(path: Seq<char>)
    ensures
        normalized(normalized(path)) == normalized(path),
{
    let n = normalized(path);
    normalized_has_no_backslash(path);
    reveal_strlit("\\\\?\\UNC\\");
    reveal_strlit("\\\\?\\");
    if "\\\\?\\UNC\\"@.is_prefix_of(n) {
        assert(n.subrange(0, 8)[0] == '\\');
    }
    if "\\\\?\\"@.is_prefix_of(n) {
        assert(n.subrange(0, 4)[0] == '\\');
    }
    lemma_replaced_keeps(n, '\\', "/"@);
}

proof fn lemma_replaced_keeps(s: Seq<char>, from: char, to: Seq<char>)
    requires
        !s.contains(from),
    ensures
        text::replaced(s, from, to) == s,
    decreases s.len(),
{
    if s.len() > 0 {
        assert(s[s.len() - 1] != from);
        assert forall|i: int| 0 <= i < s.drop_last().len() implies s.drop_last()[i] != from by {
            assert(s[i] != from);
        }
        lemma_replaced_keeps(s.drop_last(), from, to);
        assert(s.drop_last().push(s.last()) =~= s);
    } else {
        assert(s =~= Seq::empty());
    }
}

/// Normalizing turns every backslash into a slash and keeps every other character,
/// where the path has no verbatim beginning.
pub proof fn normalizing_is_letter_by_letter(path: Seq<char>, i: int)
    requires
        !("\\\\?\\"@.is_prefix_of(path)),
        0 <= i < path.len(),
    ensures
        normalized(path).len() == path.len(),
        path[i] == '\\' ==> normalized(path)[i] == '/',
        path[i] != '\\' ==> normalized(path)[i] == path[i],
{
    reveal_strlit("\\\\?\\UNC\\");
    reveal_strlit("\\\\?\\");
    reveal_strlit("/");
    if "\\\\?\\UNC\\"@.is_prefix_of(path) {
        assert(path.subrange(0, 4) =~= path.subrange(0, 8).take(4));
        assert("\\\\?\\UNC\\"@.take(4) =~= "\\\\?\\"@);
    }
    lemma_slashes(path, i);
}

proof fn lemma_slashes(path: Seq<char>, i: int)
    requires
        0 <= i < path.len(),
    ensures
        text::replaced(path, '\\', "/"@).len() == path.len(),
        path[i] == '\\' ==> text::replaced(path, '\\', "/"@)[i] == '/',
        path[i] != '\\' ==> text::replaced(path, '\\', "/"@)[i] == path[i],
    decreases path.len(),
{
    reveal_strlit("/");
    if path.len() > 1 {
        if i < path.len() - 1 {
            assert(path.drop_last()[i] == path[i]);
            lemma_slashes(path.drop_last(), i);
        } else {
            lemma_slashes(path.drop_last(), 0);
        }
    } else {
        assert(text::replaced(path.drop_last(), '\\', "/"@) =~= Seq::empty());
    }
}

/// The verbatim beginning `\\?\` is dropped when a path is normalized, and `\\?\UNC\`
/// becomes the beginning of a share.
pub proof fn verbatim_beginnings_are_dropped(rest: Seq<char>)
    ensures
        !("UNC\\"@.is_prefix_of(rest)) ==> normalized("\\\\?\\"@ + rest) == text::replaced(
            rest,
            '\\',
            "/"@,
        ),
        normalized("\\\\?\\UNC\\"@ + rest) == "//"@ + text::replaced(rest, '\\', "/"@),
{
    reveal_strlit("\\\\?\\UNC\\");
    reveal_strlit("\\\\?\\");
    reveal_strlit("UNC\\");
    reveal_strlit("\\\\");
    reveal_strlit("//");
    reveal_strlit("/");
    let a = "\\\\?\\"@ + rest;
    assert(a.subrange(0, 4) =~= "\\\\?\\"@);
    assert(a.skip(4) =~= rest);
    if "\\\\?\\UNC\\"@.is_prefix_of(a) {
        assert(rest.subrange(0, 4) =~= a.subrange(0, 8).skip(4));
        assert("\\\\?\\UNC\\"@.skip(4) =~= "UNC\\"@);
    }
    let b = "\\\\?\\UNC\\"@ + rest;
    assert(b.subrange(0, 8) =~= "\\\\?\\UNC\\"@);
    assert(b.skip(8) =~= rest);
    text::replacing_is_piece_by_piece("\\\\"@, rest, '\\', "/"@);
    text::replacing_is_piece_by_piece(seq!['\\'], seq!['\\'], '\\', "/"@);
    assert("\\\\"@ =~= seq!['\\'] + seq!['\\']);
    assert("/"@ + "/"@ =~= "//"@);
}

/// On Windows a path is absolute if it begins with a drive and a separator, but not if
/// it begins with either alone; what is absolute is kept when it is joined, and a plain
/// name is written behind a backslash.
pub proof fn windows_paths(base: Seq<char>, drive: char, rest: Seq<char>)
    requires
        ('a' <= drive && drive <= 'z') || ('A' <= drive && drive <= 'Z'),
    ensures
        is_absolute(true, seq![drive, ':', '\\'] + rest),
        is_absolute(true, seq![drive, ':', '/'] + rest),
        !is_absolute(true, seq![drive, ':']),
        rest.len() == 0 || (rest[0] != '\\' && rest[0] != '/') ==> !is_absolute(
            true,
            seq!['\\'] + rest,
        ),
        path_join(true, base, seq![drive, ':', '\\'] + rest) == seq![drive, ':', '\\'] + rest,
        is_plain_name(true, rest) && base.len() > 2 && base.last() != '\\' && base.last() != '/'
            && !is_verbatim(true, base) ==> path_join(true, base, rest) == base + "\\"@ + rest,
{
    reveal(path_join);
    let a = seq![drive, ':', '\\'] + rest;
    let b = seq![drive, ':', '/'] + rest;
    assert(a[0] == drive && a[1] == ':' && a[2] == '\\');
    assert(b[0] == drive && b[1] == ':' && b[2] == '/');
    let c = seq!['\\'] + rest;
    assert(rest.len() > 0 ==> c[1] == rest[0]);
}

/// Where only `/` separates, what follows the last `/` is the name and what stands before
/// it is the directory; a manifest is shown by the name of its directory.
pub proof fn plain_parents(base: Seq<char>, name: Seq<char>)
    requires
        base.len() > 0,
        base.last() != '/',
        base.last() != '.',
        name.len() > 0,
        !name.contains('/'),
        name != "."@,
        name != ".."@,
        name.last() != '.',
    ensures
        parent(false, base + "/"@ + name) == Some(base),
        file_name(false, base + "/"@ + name) == Some(name),
        manifest_label(false, base + "/"@ + name + "/"@ + "cook.toml"@) == name,
{
    reveal_strlit("/");
    reveal_strlit("cook.toml");
    reveal_strlit(".");
    reveal_strlit("..");
    let dir = base + "/"@ + name;
    assert forall|i: int| 0 <= i < name.len() implies !is_sep(false, #[trigger] name[i]) by {
        assert(name.contains(name[i]));
    }
    assert(is_plain_name(false, name));
    assert(is_plain_name(false, "cook.toml"@)) by {
        assert("cook.toml"@.len() == 9 && "."@.len() == 1 && ".."@.len() == 2);
    }
    plain_paths(base, name);
    plain_paths(dir, "cook.toml"@);
    assert(name.contains(name[0]));
    assert(path_join(false, base, name) == dir);
    assert(name.contains(name[name.len() - 1]));
    assert(dir.last() == name.last());
    assert(path_join(false, dir, "cook.toml"@) == dir + "/"@ + "cook.toml"@);
    a_name_lies_in_its_directory(false, base, name);
    a_name_lies_in_its_directory(false, dir, "cook.toml"@);
}

// ---------------------------------------------------------------------------
// Functions
// ---------------------------------------------------------------------------

/// Text without the prefix by which Windows marks a verbatim path.
pub fn strip_windows_verbatim_prefix(input: &str) -> (r: String)
    ensures
        r@ == without_verbatim_prefix(input@),
{
    if let Some(rest) = text::strip_prefix(input, "\\\\?\\UNC\\") {
        let mut out = "\\\\".to_owned();
        out.append(rest.as_str());
        return out;
    }
    if let Some(rest) = text::strip_prefix(input, "\\\\?\\") {
        return rest;
    }
    input.to_owned()
}

/// A path with `/` as its only separator.
pub fn normalize_path(path: &str) -> (r: String)
    ensures
        r@ == normalized(path@),
{
    text::replace(strip_windows_verbatim_prefix(path).as_str(), '\\', "/")
}

/// Whether a character separates the parts of a path.
pub fn separates(windows: bool, c: char) -> (r: bool)
    ensures
        r == is_sep(windows, c),
{
    c == '/' || (windows && c == '\\')
}

fn letter(c: char) -> (r: bool)
    ensures
        r == is_letter(c),
{
    ('a' <= c && c <= 'z') || ('A' <= c && c <= 'Z')
}

fn piece_end(v: &Vec<char>, from: usize, verbatim: bool) -> (r: usize)
    requires
        from <= v@.len(),
    ensures
        from <= r <= v@.len(),
        r == from + piece_len(v@.skip(from as int), verbatim),
{
    let mut n: usize = from;
    while n < v.len() && v[n] != '\\' && (verbatim || v[n] != '/')
        invariant
            from <= n <= v@.len(),
            n + piece_len(v@.skip(n as int), verbatim) == from + piece_len(
                v@.skip(from as int),
                verbatim,
            ),
        decreases v.len() - n,
    {
        assert(v@.skip(n as int).drop_first() =~= v@.skip(n + 1));
        n += 1;
    }
    n
}

fn drive_at(v: &Vec<char>, at: usize) -> (r: bool)
    requires
        at <= v@.len(),
    ensures
        r == names_drive(v@, at as int),
{
    v.len() - at >= 2 && letter(v[at]) && v[at + 1] == ':'
}

/// Where the share ends that is named after a server that ends at `end`; `end`
/// where none is.
fn share_end(v: &Vec<char>, end: usize, verbatim: bool) -> (r: usize)
    requires
        end <= v@.len(),
    ensures
        end <= r <= v@.len(),
        r == end + (if share_len(v@, end as int, verbatim) > 0 {
            1 + share_len(v@, end as int, verbatim)
        } else {
            0
        }),
{
    if end < v.len() {
        let r = piece_end(v, end + 1, verbatim);
        if r > end + 1 {
            return r;
        }
    }
    end
}

fn verbatim_end(v: &Vec<char>) -> (r: usize)
    requires
        v@.len() >= 4,
    ensures
        r <= v@.len(),
        r == verbatim_len(v@),
{
    if v.len() >= 8 && v[4] == 'U' && v[5] == 'N' && v[6] == 'C' && separates(true, v[7]) {
        let server = piece_end(v, 8, true);
        share_end(v, server, true)
    } else if drive_at(v, 4) && (v.len() == 6 || separates(true, v[6])) {
        6
    } else {
        piece_end(v, 4, true)
    }
}

/// What a path begins with.
#[derive(Debug)]
struct Lead {
    len: usize,
    verbatim: bool,
    drive: bool,
}

impl View for Lead {
    type V = LeadView;

    closed spec fn view(&self) -> LeadView {
        LeadView { len: self.len as int, verbatim: self.verbatim, drive: self.drive }
    }
}

fn lead_of(windows: bool, v: &Vec<char>) -> (r: Option<Lead>)
    ensures
        r is Some <==> lead(windows, v@) is Some,
        r matches Some(found) ==> lead(windows, v@) == Some(found@) && found.len <= v@.len(),
{
    if !windows {
        return None;
    }
    if v.len() >= 2 && separates(true, v[0]) && separates(true, v[1]) {
        if v.len() >= 4 && v[0] == '\\' && v[1] == '\\' && v[2] == '?' && v[3] == '\\' {
            return Some(Lead { len: verbatim_end(v), verbatim: true, drive: false });
        }
        if v.len() >= 4 && v[2] == '.' && separates(true, v[3]) {
            return Some(Lead { len: piece_end(v, 4, false), verbatim: false, drive: false });
        }
        let server = piece_end(v, 2, false);
        let share = share_end(v, server, false);
        if server > 2 && share > server {
            return Some(Lead { len: share, verbatim: false, drive: false });
        }
        return None;
    }
    if drive_at(v, 0) {
        return Some(Lead { len: 2, verbatim: false, drive: true });
    }
    None
}

/// What of a path comes before its parts.
#[derive(Debug)]
struct Start {
    /// What it begins with.
    lead: Option<Lead>,
    lead_len: usize,
    verbatim: bool,
    /// A separator follows.
    root_sep: bool,
    /// Where the parts begin.
    body: usize,
}

impl Start {
    closed spec fn is_of(self, windows: bool, path: Seq<char>) -> bool {
        &&& self.lead is Some <==> lead(windows, path) is Some
        &&& self.lead matches Some(found) ==> lead(windows, path) == Some(found@)
        &&& self.lead_len == lead_len(windows, path)
        &&& self.verbatim == is_verbatim(windows, path)
        &&& self.root_sep == has_root_sep(windows, path)
        &&& self.body == body_start(windows, path)
        &&& self.lead_len <= self.body <= path.len()
    }

    fn has_root(&self) -> (r: bool)
        ensures
            forall|windows: bool, path: Seq<char>| #[trigger]
                self.is_of(windows, path) ==> r == has_root(windows, path),
    {
        self.root_sep || (match &self.lead {
            Some(found) => !found.drive,
            None => false,
        })
    }
}

fn start_of(windows: bool, v: &Vec<char>) -> (r: Start)
    ensures
        r.is_of(windows, v@),
{
    let found = lead_of(windows, v);
    let (len, verbatim) = match &found {
        Some(l) => (l.len, l.verbatim),
        None => (0, false),
    };
    let root_sep = len < v.len() && separates(windows, v[len]);
    let body = if root_sep {
        len + 1
    } else {
        len
    };
    Start { lead: found, lead_len: len, verbatim, root_sep, body }
}

/// Whether a path does not depend on where it is looked at from.
pub fn is_absolute_path(windows: bool, path: &str) -> (r: bool)
    ensures
        r == is_absolute(windows, path@),
{
    let v = text::chars_of(path);
    let start = start_of(windows, &v);
    start.has_root() && (!windows || start.lead.is_some())
}

/// Whether a path begins with a drive, a share, a device or a root.
pub fn has_lead_or_root(windows: bool, path: &str) -> (r: bool)
    ensures
        r == (lead(windows, path@) is Some || has_root(windows, path@)),
{
    let v = text::chars_of(path);
    let start = start_of(windows, &v);
    start.lead.is_some() || start.has_root()
}

/// The parts of a path that begins with no drive, share or device.
pub fn parts_of(windows: bool, path: &str) -> (r: Vec<String>)
    ensures
        text::texts(r@) == parts(windows, path@),
{
    let pieces = if windows {
        text::split_on(text::replace(path, '\\', "/").as_str(), '/')
    } else {
        text::split_on(path, '/')
    };
    let ghost all = text::texts(pieces@);
    let mut out: Vec<String> = Vec::new();
    let mut i: usize = 0;
    assert(text::texts(out@) =~= kept_pieces(all.take(0)));
    while i < pieces.len()
        invariant
            i <= pieces@.len(),
            all == text::texts(pieces@),
            text::texts(out@) == kept_pieces(all.take(i as int)),
        decreases pieces.len() - i,
    {
        assert(all.take(i + 1).drop_last() == all.take(i as int));
        assert(all.take(i + 1).last() == pieces@[i as int]@);
        let piece = pieces[i].as_str();
        if !(piece.is_empty() || (i > 0 && text::same_text(piece, "."))) {
            text::push_text(&mut out, piece);
        }
        i += 1;
    }
    assert(all.take(all.len() as int) == all);
    out
}

fn fill(pieces: &Vec<String>) -> (r: Vec<String>)
    ensures
        text::texts(r@) == filled(text::texts(pieces@)),
{
    let ghost all = text::texts(pieces@);
    let mut out: Vec<String> = Vec::new();
    let mut i: usize = 0;
    assert(text::texts(out@) =~= filled(all.take(0)));
    while i < pieces.len()
        invariant
            i <= pieces@.len(),
            all == text::texts(pieces@),
            text::texts(out@) == filled(all.take(i as int)),
        decreases pieces.len() - i,
    {
        assert(all.take(i + 1).drop_last() == all.take(i as int));
        assert(all.take(i + 1).last() == pieces@[i as int]@);
        let piece = pieces[i].as_str();
        if !piece.is_empty() {
            text::push_text(&mut out, piece);
        }
        i += 1;
    }
    assert(all.take(all.len() as int) == all);
    out
}

fn follow(list: Vec<String>, more: &Vec<String>) -> (r: Vec<String>)
    ensures
        text::texts(r@) == followed(text::texts(list@), text::texts(more@)),
{
    let ghost from = text::texts(list@);
    let ghost all = text::texts(more@);
    let mut out = list;
    let mut i: usize = 0;
    assert(text::texts(out@) =~= followed(from, all.take(0)));
    while i < more.len()
        invariant
            i <= more@.len(),
            all == text::texts(more@),
            text::texts(out@) == followed(from, all.take(i as int)),
        decreases more.len() - i,
    {
        let ghost before = text::texts(out@);
        assert(all.take(i + 1).drop_last() == all.take(i as int));
        assert(all.take(i + 1).last() == more@[i as int]@);
        let piece = more[i].as_str();
        if text::same_text(piece, "..") {
            if out.len() > 0 {
                assert(before.last() == out@[out@.len() - 1]@);
                let last = out[out.len() - 1].as_str();
                if !text::same_text(last, ".") && !text::same_text(last, "..") {
                    out.pop();
                    assert(text::texts(out@) =~= before.drop_last());
                }
            }
        } else if !text::same_text(piece, ".") {
            text::push_text(&mut out, piece);
        }
        proof {
            reveal_strlit(".");
            reveal_strlit("..");
            assert("."@.len() != ".."@.len());
        }
        i += 1;
    }
    assert(all.take(all.len() as int) == all);
    out
}

fn join_verbatim(base: &Vec<char>, base_start: &Start, part: &str, part_root: bool) -> (r: String)
    requires
        base_start.is_of(true, base@),
        part_root == has_root(true, part@),
    ensures
        r@ == verbatim_join(base@, part@),
{
    let mut out = text::text_of(base, 0, base_start.lead_len);
    assert(base@.subrange(0, base_start.lead_len as int) == base@.take(lead_len(true, base@)));
    let from = if part_root {
        let none: Vec<String> = Vec::new();
        assert(text::texts(none@) =~= Seq::empty());
        none
    } else {
        let body = text::text_of(base, base_start.body, base.len());
        assert(body@ =~= base@.skip(body_start(true, base@)));
        fill(&text::split_on(body.as_str(), '\\'))
    };
    let list = follow(from, &parts_of(true, part));
    if list.len() > 0 || part_root || base_start.root_sep {
        out.append("\\");
        out.append(text::join(&list, "\\").as_str());
    }
    out
}

/// A path seen from the directory `base`.
pub fn join(windows: bool, base: &str, part: &str) -> (r: String)
    ensures
        r@ == path_join(windows, base@, part@),
{
    proof {
        reveal(path_join);
    }
    let part_chars = text::chars_of(part);
    let part_start = start_of(windows, &part_chars);
    let part_root = part_start.has_root();
    if part_start.lead.is_some() || (part_root && !windows) {
        return part.to_owned();
    }
    let v = text::chars_of(base);
    let base_start = start_of(windows, &v);
    if base_start.verbatim && part_chars.len() > 0 {
        return join_verbatim(&v, &base_start, part, part_root);
    }
    if part_root {
        let mut out = text::text_of(&v, 0, base_start.lead_len);
        assert(v@.subrange(0, base_start.lead_len as int) == v@.take(lead_len(windows, v@)));
        out.append(part);
        return out;
    }
    let bare_drive = v.len() == 2 && (match &base_start.lead {
        Some(found) => found.drive,
        None => false,
    });
    let mut out = base.to_owned();
    if v.len() > 0 && !separates(windows, v[v.len() - 1]) && !bare_drive {
        out.append(
            if windows {
                "\\"
            } else {
                "/"
            },
        );
    }
    out.append(part);
    out
}

fn splits_at(windows: bool, verbatim: bool, c: char) -> (r: bool)
    ensures
        r == splits(windows, verbatim, c),
{
    if verbatim {
        c == '\\'
    } else {
        separates(windows, c)
    }
}

fn trim_tail(windows: bool, verbatim: bool, start: usize, v: &Vec<char>, end: usize) -> (r: usize)
    requires
        end <= v@.len(),
    ensures
        r <= end,
        v@.take(r as int) == tail_trimmed(windows, verbatim, start as int, v@.take(end as int)),
{
    let mut n: usize = end;
    while n > start && n > 0 && (splits_at(windows, verbatim, v[n - 1]) || (!verbatim && n > 1
        && v[n - 1] == '.' && splits_at(windows, verbatim, v[n - 2])))
        invariant
            n <= end <= v@.len(),
            tail_trimmed(windows, verbatim, start as int, v@.take(n as int)) == tail_trimmed(
                windows,
                verbatim,
                start as int,
                v@.take(end as int),
            ),
        decreases n,
    {
        assert(v@.take(n as int).drop_last() == v@.take(n - 1));
        n -= 1;
    }
    n
}

fn last_part(windows: bool, verbatim: bool, start: usize, v: &Vec<char>, end: usize) -> (r: usize)
    requires
        end <= v@.len(),
    ensures
        r <= end,
        r == before_last_part(windows, verbatim, start as int, v@.take(end as int)),
{
    let mut n: usize = end;
    while n > start && n > 0 && !splits_at(windows, verbatim, v[n - 1])
        invariant
            n <= end <= v@.len(),
            before_last_part(windows, verbatim, start as int, v@.take(n as int))
                == before_last_part(windows, verbatim, start as int, v@.take(end as int)),
        decreases n,
    {
        assert(v@.take(n as int).drop_last() == v@.take(n - 1));
        n -= 1;
    }
    n
}

/// The directory that holds `path`.
pub fn parent_of(windows: bool, path: &str) -> (r: Option<String>)
    ensures
        text::opt_text(r) == parent(windows, path@),
{
    proof {
        reveal(parent);
    }
    let v = text::chars_of(path);
    assert(v@.take(v@.len() as int) == path@);
    let start = start_of(windows, &v);
    let n = trim_tail(windows, start.verbatim, start.body, &v, v.len());
    if n <= start.body {
        return None;
    }
    let ghost t = v@.take(n as int);
    let m = last_part(windows, start.verbatim, start.body, &v, n);
    let k = trim_tail(windows, start.verbatim, start.body, &v, m);
    assert(t.take(m as int) == v@.take(m as int));
    assert(v@.subrange(0, k as int) == v@.take(k as int));
    Some(text::text_of(&v, 0, k))
}

/// The last part of `path`, if that is a name.
pub fn file_name_of(windows: bool, path: &str) -> (r: Option<String>)
    ensures
        text::opt_text(r) == file_name(windows, path@),
{
    proof {
        reveal(file_name);
    }
    let v = text::chars_of(path);
    assert(v@.take(v@.len() as int) == path@);
    let start = start_of(windows, &v);
    let n = trim_tail(windows, start.verbatim, start.body, &v, v.len());
    let m = last_part(windows, start.verbatim, start.body, &v, n);
    let ghost t = v@.take(n as int);
    let ghost last = t.skip(m as int);
    let name = text::text_of(&v, m, n);
    assert(v@.subrange(m as int, n as int) == last);
    proof {
        reveal_strlit(".");
        reveal_strlit("..");
        assert("."@ =~= seq!['.']);
        assert(".."@ =~= seq!['.', '.']);
    }
    if m == n || text::same_text(name.as_str(), ".") || text::same_text(name.as_str(), "..") {
        None
    } else {
        Some(name)
    }
}

/// What follows the last `.` in the file name of `path`.
pub fn extension_of(windows: bool, path: &str) -> (r: Option<String>)
    ensures
        text::opt_text(r) == extension(windows, path@),
{
    match file_name_of(windows, path) {
        Some(name) => {
            let v = text::chars_of(name.as_str());
            let mut n: usize = v.len();
            assert(v@.take(n as int) == v@);
            while n > 0 && v[n - 1] != '.'
                invariant
                    n <= v@.len(),
                    after_last_dot(v@.take(n as int)) == after_last_dot(v@),
                decreases n,
            {
                assert(v@.take(n as int).drop_last() == v@.take(n - 1));
                n -= 1;
            }
            if n <= 1 {
                None
            } else {
                assert(v@.subrange(n as int, v@.len() as int) == v@.skip(n as int));
                Some(text::text_of(&v, n, v.len()))
            }
        },
        None => None,
    }
}

/// The name by which a manifest is shown.
pub fn label_for_manifest(windows: bool, manifest: &str) -> (r: String)
    ensures
        r@ == manifest_label(windows, manifest@),
{
    match parent_of(windows, manifest) {
        Some(dir) => match file_name_of(windows, dir.as_str()) {
            Some(name) => name,
            None => manifest.to_owned(),
        },
        None => manifest.to_owned(),
    }
}

}
