//! Dependencies that come as zip archives.
use vstd::prelude::*;
use vstd::string::*;

use crate::failure::Failure;
use crate::paths;
use crate::text;

verus! {

broadcast use vstd::string::group_string_axioms;

// ---------------------------------------------------------------------------
// The outside crate
// ---------------------------------------------------------------------------

/// An opened zip archive.
#[verifier::external_type_specification]
#[verifier::external_body]
#[verifier::reject_recursive_types(R)]
pub struct ExZipArchive<R>(zip::ZipArchive<R>);

/// A reader of bytes in memory.
#[verifier::external_type_specification]
#[verifier::external_body]
#[verifier::reject_recursive_types(T)]
pub struct ExCursor<T>(std::io::Cursor<T>);

/// The entries of an opened archive: of each that can be opened, its name and what
/// it holds, if that can be read to its end.
pub uninterp spec fn zip_entries(
    archive: zip::ZipArchive<std::io::Cursor<Vec<u8>>>,
) -> Seq<Option<(Seq<char>, Option<Seq<u8>>)>>;

/// The entries of the archive that some bytes make, if they make one.
pub uninterp spec fn zip_listing(
    bytes: Seq<u8>,
) -> Option<Seq<Option<(Seq<char>, Option<Seq<u8>>)>>>;

/// Calls `zip::ZipArchive::new`. Trusted: whether the bytes are an archive, and
/// which entries it has, depends on the bytes alone.
#[verifier::external_body]
fn zip_open(bytes: Vec<u8>) -> (r: Option<zip::ZipArchive<std::io::Cursor<Vec<u8>>>>)
    ensures
        match zip_listing(bytes@) {
            Some(entries) => r is Some && zip_entries(r->0) == entries,
            None => r is None,
        },
{
    zip::ZipArchive::new(std::io::Cursor::new(bytes)).ok()
}

/// Calls `zip::ZipArchive::len`. Trusted: it is the number of entries.
#[verifier::external_body]
fn zip_len(archive: &zip::ZipArchive<std::io::Cursor<Vec<u8>>>) -> (r: usize)
    ensures
        r == zip_entries(*archive).len(),
{
    archive.len()
}

/// Calls `zip::ZipArchive::by_index`, and `name` and `is_dir` of the entry.
/// Trusted: the entry with this number is looked at, the archive keeps its entries,
/// and an entry is a directory if its name ends in `/` or `\`.
#[verifier::external_body]
fn zip_entry(archive: &mut zip::ZipArchive<std::io::Cursor<Vec<u8>>>, index: usize) -> (r: Option<
    (String, bool),
>)
    requires
        index < zip_entries(*old(archive)).len(),
    ensures
        zip_entries(*final(archive)) == zip_entries(*old(archive)),
        match zip_entries(*old(archive))[index as int] {
            None => r is None,
            Some(entry) => r is Some && (r->0).0@ == entry.0 && (r->0).1 == names_directory(
                entry.0,
            ),
        },
{
    let entry = archive.by_index(index).ok()?;
    Some((entry.name().to_owned(), entry.is_dir()))
}

/// Calls `zip::ZipArchive::by_index`, and `read_to_end` of the entry. Trusted: the
/// entry with this number is read, the archive keeps its entries, and what the entry
/// holds comes back whole or not at all. What could be read of an entry that is
/// damaged is dropped.
#[verifier::external_body]
fn zip_content(archive: &mut zip::ZipArchive<std::io::Cursor<Vec<u8>>>, index: usize) -> (r: Option<
    Vec<u8>,
>)
    requires
        index < zip_entries(*old(archive)).len(),
    ensures
        zip_entries(*final(archive)) == zip_entries(*old(archive)),
        held(r) == (match zip_entries(*old(archive))[index as int] {
            None => None,
            Some(entry) => entry.1,
        }),
{
    let mut entry = archive.by_index(index).ok()?;
    let mut out = Vec::new();
    std::io::Read::read_to_end(&mut entry, &mut out).ok()?;
    Some(out)
}

// ---------------------------------------------------------------------------
// Model
// ---------------------------------------------------------------------------

/// What an entry holds, if it can be read.
pub open spec fn held(content: Option<Vec<u8>>) -> Option<Seq<u8>> {
    match content {
        Some(bytes) => Some(bytes@),
        None => None,
    }
}

/// How deep a path leads, or below zero once it has led above where it begins.
pub open spec fn depth(list: Seq<Seq<char>>) -> int
    decreases list.len(),
{
    if list.len() == 0 {
        0
    } else {
        let before = depth(list.drop_last());
        if before < 0 {
            before
        } else if list.last() == ".."@ {
            before - 1
        } else if list.last() == "."@ {
            before
        } else {
            before + 1
        }
    }
}

/// A relative path that never leads above the directory where it begins.
pub open spec fn stays_inside(windows: bool, path: Seq<char>) -> bool {
    &&& !path.contains('\0')
    &&& paths::lead(windows, path) is None
    &&& !paths::has_root(windows, path)
    &&& depth(paths::parts(windows, path)) >= 0
}

/// The name of an entry, if it stays inside the directory it is unpacked in.
pub open spec fn enclosed(windows: bool, name: Seq<char>) -> Option<Seq<char>> {
    if stays_inside(windows, name) {
        Some(name)
    } else {
        None
    }
}

/// An entry of an archive.
#[verifier::ext_equal]
pub struct EntryView {
    pub name: Option<Seq<char>>,
    pub is_dir: bool,
}

/// An entry with this name is a directory.
pub open spec fn names_directory(name: Seq<char>) -> bool {
    name.len() > 0 && (name.last() == '/' || name.last() == '\\')
}

/// The entries of an archive of which all can be read.
pub open spec fn readable(
    windows: bool,
    list: Seq<Option<(Seq<char>, Option<Seq<u8>>)>>,
) -> Seq<EntryView> {
    list.map_values(
        |entry: Option<(Seq<char>, Option<Seq<u8>>)>|
            EntryView {
                name: enclosed(windows, (entry->0).0),
                is_dir: names_directory((entry->0).0),
            },
    )
}

/// The number of the first entry that cannot be read, or their count.
pub open spec fn first_unreadable(list: Seq<Option<(Seq<char>, Option<Seq<u8>>)>>) -> int
    decreases list.len(),
{
    if list.len() == 0 || list[0] is None {
        0
    } else {
        1 + first_unreadable(list.drop_first())
    }
}

/// The parts of an entry's name; none where it leads elsewhere.
pub open spec fn entry_parts(windows: bool, entry: EntryView) -> Seq<Seq<char>> {
    match entry.name {
        Some(name) => paths::parts(windows, name),
        None => Seq::empty(),
    }
}

/// All entries are under one name.
pub open spec fn one_top(windows: bool, list: Seq<EntryView>) -> bool {
    forall|i: int, j: int|
        0 <= i < list.len() && 0 <= j < list.len() && entry_parts(
            windows,
            #[trigger] list[i],
        ).len() > 0 && entry_parts(windows, #[trigger] list[j]).len() > 0 ==> entry_parts(
            windows,
            list[i],
        )[0] == entry_parts(windows, list[j])[0]
}

/// Some entry is inside another.
pub open spec fn some_nested(windows: bool, list: Seq<EntryView>) -> bool {
    exists|i: int| 0 <= i < list.len() && entry_parts(windows, #[trigger] list[i]).len() > 1
}

/// How many parts of the names are dropped: one, if that is the same for all
/// entries and something stands below it.
pub open spec fn dropped_parts(windows: bool, list: Seq<EntryView>) -> nat {
    if one_top(windows, list) && some_nested(windows, list) {
        1
    } else {
        0
    }
}

/// Where an entry goes, seen from the directory it is unpacked in.
pub open spec fn relative_target(windows: bool, entry: EntryView, dropped: nat) -> Seq<char> {
    let list = entry_parts(windows, entry);
    if list.len() <= dropped {
        Seq::empty()
    } else {
        pushed(windows, list.skip(dropped as int))
    }
}

/// The path that the parts `list` make, one after the other.
pub open spec fn pushed(windows: bool, list: Seq<Seq<char>>) -> Seq<char>
    decreases list.len(),
{
    if list.len() == 0 {
        Seq::empty()
    } else {
        paths::path_join(windows, pushed(windows, list.drop_last()), list.last())
    }
}

/// The model of a [`PlannedStep`].
#[verifier::ext_equal]
pub enum StepView {
    CreateDirectory(Seq<char>),
    WriteFile { index: int, parent: Option<Seq<char>>, path: Seq<char> },
}

/// The model of an [`ExtractStep`].
#[verifier::ext_equal]
pub enum ExtractView {
    CreateDirectory(Seq<char>),
    WriteFile { parent: Option<Seq<char>>, path: Seq<char>, content: Option<Seq<u8>> },
}

/// `step` with what the entry that it writes holds.
pub open spec fn with_content(
    list: Seq<Option<(Seq<char>, Option<Seq<u8>>)>>,
    step: StepView,
) -> ExtractView {
    match step {
        StepView::CreateDirectory(path) => ExtractView::CreateDirectory(path),
        StepView::WriteFile { index, parent, path } => ExtractView::WriteFile {
            parent,
            path,
            content: (list[index]->0).1,
        },
    }
}

/// The steps with what the entries that they write hold.
pub open spec fn with_contents(
    list: Seq<Option<(Seq<char>, Option<Seq<u8>>)>>,
    steps: Seq<StepView>,
) -> Seq<ExtractView> {
    steps.map_values(|step: StepView| with_content(list, step))
}

/// The path that a step creates or writes.
pub open spec fn step_path(step: StepView) -> Seq<char> {
    match step {
        StepView::CreateDirectory(path) => path,
        StepView::WriteFile { path, .. } => path,
    }
}

/// The names of the entries do not lead out of the directory that the archive is
/// unpacked in.
pub open spec fn names_stay_inside(windows: bool, list: Seq<EntryView>) -> bool {
    forall|i: int|
        0 <= i < list.len() && (#[trigger] list[i]).name is Some ==> stays_inside(
            windows,
            list[i].name->0,
        )
}

/// What to do with the entry `index` of an archive.
pub open spec fn steps_for(
    windows: bool,
    list: Seq<EntryView>,
    index: int,
    dropped: nat,
    destination: Seq<char>,
) -> Seq<StepView> {
    let relative = relative_target(windows, list[index], dropped);
    let path = paths::path_join(windows, destination, relative);
    if list[index].name is None || relative.len() == 0 {
        Seq::empty()
    } else if list[index].is_dir {
        seq![StepView::CreateDirectory(path)]
    } else {
        seq![StepView::WriteFile { index, parent: paths::parent(windows, path), path }]
    }
}

/// What to do with the first `count` entries of an archive.
pub open spec fn steps_up_to(
    windows: bool,
    list: Seq<EntryView>,
    count: int,
    dropped: nat,
    destination: Seq<char>,
) -> Seq<StepView>
    decreases count,
{
    if count <= 0 {
        Seq::empty()
    } else {
        steps_up_to(windows, list, count - 1, dropped, destination) + steps_for(
            windows,
            list,
            count - 1,
            dropped,
            destination,
        )
    }
}

/// How an archive is unpacked.
pub open spec fn unpacking(windows: bool, bytes: Seq<u8>, destination: Seq<char>) -> Result<
    Seq<ExtractView>,
    Seq<char>,
> {
    match zip_listing(bytes) {
        None => Err("invalid zip archive format"@),
        Some(list) => {
            let bad = first_unreadable(list);
            if bad < list.len() {
                Err("failed to inspect archive entry "@ + text::decimal(bad as nat))
            } else {
                Ok(
                    with_contents(
                        list,
                        unpacking_of(windows, readable(windows, list), destination),
                    ),
                )
            }
        },
    }
}

/// How the entries of an archive are unpacked.
pub open spec fn unpacking_of(windows: bool, list: Seq<EntryView>, destination: Seq<char>) -> Seq<
    StepView,
> {
    steps_up_to(windows, list, list.len() as int, dropped_parts(windows, list), destination)
}

// ---------------------------------------------------------------------------
// Laws
// ---------------------------------------------------------------------------

proof fn lemma_depth_without_parents(list: Seq<Seq<char>>)
    requires
        !list.contains(".."@),
    ensures
        depth(list) >= 0,
    decreases list.len(),
{
    if list.len() > 0 {
        assert forall|i: int| 0 <= i < list.drop_last().len() implies list.drop_last()[i]
            != ".."@ by {
            assert(list[i] == list.drop_last()[i]);
            assert(list.contains(list[i]));
        }
        lemma_depth_without_parents(list.drop_last());
        assert(list[list.len() - 1] == list.last());
        assert(list.contains(list.last()));
    }
}

/// What an entry is unpacked to never leads above the directory it is unpacked
/// in, unless a part is dropped from a name that leads back up.
pub proof fn targets_stay_inside(windows: bool, entry: EntryView, dropped: nat)
    requires
        entry.name is Some,
        stays_inside(windows, entry.name->0),
        dropped <= entry_parts(windows, entry).len(),
        dropped == 0 || !entry_parts(windows, entry).contains(".."@),
    ensures
        depth(entry_parts(windows, entry).skip(dropped as int)) >= 0,
{
    let list = entry_parts(windows, entry);
    if dropped == 0 {
        assert(list.skip(0) =~= list);
    } else {
        let rest = list.skip(dropped as int);
        assert forall|i: int| 0 <= i < rest.len() implies rest[i] != ".."@ by {
            assert(list.contains(list[i + dropped]));
        }
        lemma_depth_without_parents(rest);
    }
}

proof fn lemma_kept_pieces(pieces: Seq<Seq<char>>, c: char)
    requires
        forall|i: int| 0 <= i < pieces.len() ==> !(#[trigger] pieces[i]).contains(c),
    ensures
        forall|i: int|
            0 <= i < paths::kept_pieces(pieces).len() ==> (
            #[trigger] paths::kept_pieces(pieces)[i]).len() > 0
                && !paths::kept_pieces(pieces)[i].contains(c),
    decreases pieces.len(),
{
    if pieces.len() > 0 {
        assert forall|i: int| 0 <= i < pieces.drop_last().len() implies !(
        #[trigger] pieces.drop_last()[i]).contains(c) by {
            assert(pieces.drop_last()[i] == pieces[i]);
        }
        lemma_kept_pieces(pieces.drop_last(), c);
        let before = paths::kept_pieces(pieces.drop_last());
        let after = paths::kept_pieces(pieces);
        assert(!pieces[pieces.len() - 1].contains(c));
        assert forall|i: int| 0 <= i < after.len() implies (#[trigger] after[i]).len() > 0
            && !after[i].contains(c) by {
            if i < before.len() {
                assert(after[i] == before[i]);
            }
        }
    }
}

proof fn lemma_pushed(windows: bool, list: Seq<Seq<char>>)
    requires
        list.len() > 0,
        forall|i: int|
            0 <= i < list.len() ==> (#[trigger] list[i]).len() > 0 && paths::lead(
                windows,
                list[i],
            ) is None,
        forall|i: int, k: int|
            0 <= i < list.len() && 0 <= k < list[i].len() ==> !paths::is_sep(
                windows,
                #[trigger] list[i][k],
            ),
    ensures
        ({
            let r = pushed(windows, list);
            let first = list[0];
            &&& r.len() >= first.len()
            &&& forall|k: int| 0 <= k < first.len() ==> r[k] == first[k]
            &&& r.len() == first.len() || paths::is_sep(windows, r[first.len() as int])
            &&& !paths::is_sep(windows, r.last())
            &&& paths::lead(windows, r) is None
            &&& !paths::has_root(windows, r)
        }),
    decreases list.len(),
{
    reveal_strlit("/");
    reveal_strlit("\\");
    reveal(paths::path_join);
    let first = list[0];
    let part = list[list.len() - 1];
    let rest = list.drop_last();
    let r = pushed(windows, list);
    assert(!paths::is_sep(windows, part[0]));
    assert(!paths::is_sep(windows, part[part.len() - 1]));
    assert(!paths::is_sep(windows, first[0]));
    assert(!paths::has_root(windows, part));
    if rest.len() == 0 {
        assert(pushed(windows, rest) =~= Seq::empty());
        assert(r =~= part);
    } else {
        assert forall|i: int| 0 <= i < rest.len() implies (#[trigger] rest[i]).len() > 0
            && paths::lead(windows, rest[i]) is None by {
            assert(rest[i] == list[i]);
        }
        assert forall|i: int, k: int|
            0 <= i < rest.len() && 0 <= k < rest[i].len() implies !paths::is_sep(
            windows,
            #[trigger] rest[i][k],
        ) by {
            assert(rest[i] == list[i]);
        }
        lemma_pushed(windows, rest);
        let base = pushed(windows, rest);
        assert(r =~= base + paths::main_sep(windows) + part);
        assert(r[0] == first[0]);
        if first.len() > 1 {
            assert(r[1] == first[1]);
        } else {
            assert(paths::is_sep(windows, r[1]));
        }
        assert(paths::lead(windows, r) is None);
    }
}

/// No part of the entry's name that is left reads like a drive.
pub open spec fn names_no_drive(windows: bool, entry: EntryView, dropped: nat) -> bool {
    forall|i: int|
        dropped <= i < entry_parts(windows, entry).len() ==> paths::lead(
            windows,
            #[trigger] entry_parts(windows, entry)[i],
        ) is None
}

/// Every entry is unpacked to a path that begins with the destination, unless a
/// part of its name reads like a drive or the destination has a verbatim beginning.
pub proof fn targets_are_under_destination(
    windows: bool,
    entry: EntryView,
    dropped: nat,
    destination: Seq<char>,
)
    requires
        names_no_drive(windows, entry, dropped),
        !paths::is_verbatim(windows, destination),
    ensures
        destination.is_prefix_of(
            paths::path_join(windows, destination, relative_target(windows, entry, dropped)),
        ),
{
    let list = entry_parts(windows, entry);
    let relative = relative_target(windows, entry, dropped);
    if list.len() > dropped {
        let name = paths::slashed(windows, entry.name->0);
        reveal_strlit("/");
        text::lemma_split_pieces(name, '/');
        lemma_kept_pieces(text::split(name, '/'), '/');
        if windows {
            paths::slashed_has_no_backslash(entry.name->0);
            lemma_split_without(name, '/', '\\');
            lemma_kept_pieces(text::split(name, '/'), '\\');
        }
        let rest = list.skip(dropped as int);
        assert forall|i: int| 0 <= i < rest.len() implies (#[trigger] rest[i]).len() > 0
            && paths::lead(windows, rest[i]) is None by {
            assert(rest[i] == list[i + dropped]);
        }
        assert forall|i: int, k: int|
            0 <= i < rest.len() && 0 <= k < rest[i].len() implies !paths::is_sep(
            windows,
            #[trigger] rest[i][k],
        ) by {
            assert(rest[i] == list[i + dropped]);
            assert(rest[i].contains(rest[i][k]));
        }
        lemma_pushed(windows, rest);
    }
    paths::joining_keeps_the_base(windows, destination, relative);
}

proof fn lemma_split_without(s: Seq<char>, sep: char, c: char)
    requires
        !s.contains(c),
    ensures
        forall|i: int| 0 <= i < text::split(s, sep).len() ==> !(#[trigger] text::split(s, sep)[i])
            .contains(c),
    decreases s.len(),
{
    let at = text::position(s, sep);
    let all = text::split(s, sep);
    if 0 <= at < s.len() {
        let rest = s.skip(at + 1);
        assert forall|k: int| 0 <= k < rest.len() implies rest[k] != c by {
            assert(s.contains(s[k + at + 1]));
        }
        lemma_split_without(rest, sep, c);
        assert forall|i: int| 0 <= i < all.len() implies !(#[trigger] all[i]).contains(c) by {
            if i == 0 {
                assert forall|k: int| 0 <= k < at implies s.take(at)[k] != c by {
                    assert(s.contains(s[k]));
                }
                assert(all[0] == s.take(at));
            } else {
                assert(all[i] == text::split(rest, sep)[i - 1]);
            }
        }
    } else {
        assert(all =~= seq![s]);
    }
}

/// `step` is what is done with the entry `i`.
pub open spec fn unpacks(
    windows: bool,
    list: Seq<EntryView>,
    destination: Seq<char>,
    step: StepView,
    i: int,
) -> bool {
    &&& 0 <= i < list.len()
    &&& list[i].name is Some
    &&& relative_target(windows, list[i], dropped_parts(windows, list)).len() > 0
    &&& list[i].is_dir <==> step is CreateDirectory
    &&& step matches StepView::WriteFile { index, .. } ==> index == i
    &&& step_path(step) == paths::path_join(
        windows,
        destination,
        relative_target(windows, list[i], dropped_parts(windows, list)),
    )
}

proof fn lemma_steps_unpack(
    windows: bool,
    list: Seq<EntryView>,
    destination: Seq<char>,
    count: int,
    k: int,
) -> (i: int)
    requires
        0 <= count <= list.len(),
        0 <= k < steps_up_to(
            windows,
            list,
            count,
            dropped_parts(windows, list),
            destination,
        ).len(),
    ensures
        unpacks(
            windows,
            list,
            destination,
            steps_up_to(windows, list, count, dropped_parts(windows, list), destination)[k],
            i,
        ),
    decreases count,
{
    let dropped = dropped_parts(windows, list);
    let before = steps_up_to(windows, list, count - 1, dropped, destination);
    let steps = steps_up_to(windows, list, count, dropped, destination);
    if k < before.len() {
        assert(steps[k] == before[k]);
        lemma_steps_unpack(windows, list, destination, count - 1, k)
    } else {
        assert(steps[k] == steps_for(windows, list, count - 1, dropped, destination)[k
            - before.len()]);
        count - 1
    }
}

/// Every step of unpacking an archive creates or writes what one entry names. That
/// is under the destination, unless a part of the name reads like a drive or the
/// destination has a verbatim beginning, and does not lead out of it, unless a part
/// is dropped from a name that leads back up.
pub proof fn steps_stay_inside(
    windows: bool,
    list: Seq<EntryView>,
    destination: Seq<char>,
    k: int,
)
    requires
        names_stay_inside(windows, list),
        0 <= k < unpacking_of(windows, list, destination).len(),
    ensures
        exists|i: int| #[trigger]
            unpacks(windows, list, destination, unpacking_of(windows, list, destination)[k], i)
                && (names_no_drive(windows, list[i], dropped_parts(windows, list))
                && !paths::is_verbatim(windows, destination) ==> destination.is_prefix_of(
                step_path(unpacking_of(windows, list, destination)[k]),
            )) && (dropped_parts(windows, list) == 0 || !entry_parts(windows, list[i]).contains(
                ".."@,
            ) ==> depth(
                entry_parts(windows, list[i]).skip(dropped_parts(windows, list) as int),
            ) >= 0),
{
    let dropped = dropped_parts(windows, list);
    let step = unpacking_of(windows, list, destination)[k];
    let i = lemma_steps_unpack(windows, list, destination, list.len() as int, k);
    if names_no_drive(windows, list[i], dropped) && !paths::is_verbatim(windows, destination) {
        targets_are_under_destination(windows, list[i], dropped, destination);
    }
    if dropped == 0 || !entry_parts(windows, list[i]).contains(".."@) {
        targets_stay_inside(windows, list[i], dropped);
    }
    assert(unpacks(windows, list, destination, step, i));
}

/// Every file that is written when an archive is unpacked is written with what the
/// entry holds that names it, and with nothing else.
pub proof fn files_hold_what_their_entries_hold(
    windows: bool,
    bytes: Seq<u8>,
    destination: Seq<char>,
    k: int,
)
    requires
        unpacking(windows, bytes, destination) is Ok,
        0 <= k < unpacking(windows, bytes, destination)->Ok_0.len(),
    ensures
        ({
            let list = zip_listing(bytes)->0;
            let plan = unpacking_of(windows, readable(windows, list), destination);
            let steps = unpacking(windows, bytes, destination)->Ok_0;
            &&& steps.len() == plan.len()
            &&& exists|i: int| #[trigger]
                unpacks(windows, readable(windows, list), destination, plan[k], i) && (
                match steps[k] {
                    ExtractView::CreateDirectory(path) => names_directory((list[i]->0).0) && path
                        == step_path(plan[k]),
                    ExtractView::WriteFile { parent, path, content } => !names_directory(
                        (list[i]->0).0,
                    ) && path == step_path(plan[k]) && content == (list[i]->0).1,
                })
        }),
{
    let list = zip_listing(bytes)->0;
    let entries = readable(windows, list);
    let plan = unpacking_of(windows, entries, destination);
    let steps = unpacking(windows, bytes, destination)->Ok_0;
    let i = lemma_steps_unpack(windows, entries, destination, list.len() as int, k);
    assert(steps[k] == with_content(list, plan[k]));
    assert(unpacks(windows, entries, destination, plan[k], i));
}

/// Nothing that stays inside is left out: every entry that names something below what
/// is dropped is created or written at its place under the destination.
pub proof fn every_entry_is_unpacked(
    windows: bool,
    list: Seq<EntryView>,
    destination: Seq<char>,
    i: int,
)
    requires
        0 <= i < list.len(),
        list[i].name is Some,
        relative_target(windows, list[i], dropped_parts(windows, list)).len() > 0,
    ensures
        ({
            let path = paths::path_join(
                windows,
                destination,
                relative_target(windows, list[i], dropped_parts(windows, list)),
            );
            let steps = unpacking_of(windows, list, destination);
            &&& list[i].is_dir ==> steps.contains(StepView::CreateDirectory(path))
            &&& !list[i].is_dir ==> steps.contains(
                StepView::WriteFile { index: i, parent: paths::parent(windows, path), path },
            )
        }),
{
    lemma_step_is_kept(windows, list, destination, list.len() as int, i);
}

proof fn lemma_step_is_kept(
    windows: bool,
    list: Seq<EntryView>,
    destination: Seq<char>,
    count: int,
    i: int,
)
    requires
        0 <= i < count <= list.len(),
        list[i].name is Some,
        relative_target(windows, list[i], dropped_parts(windows, list)).len() > 0,
    ensures
        ({
            let dropped = dropped_parts(windows, list);
            steps_up_to(windows, list, count, dropped, destination).contains(
                steps_for(windows, list, i, dropped, destination)[0],
            )
        }),
        steps_for(windows, list, i, dropped_parts(windows, list), destination).len() == 1,
    decreases count,
{
    let dropped = dropped_parts(windows, list);
    let before = steps_up_to(windows, list, count - 1, dropped, destination);
    let steps = steps_up_to(windows, list, count, dropped, destination);
    let step = steps_for(windows, list, i, dropped, destination)[0];
    if i == count - 1 {
        assert(steps[before.len() as int] == step);
    } else {
        lemma_step_is_kept(windows, list, destination, count - 1, i);
        let k = choose|k: int| 0 <= k < before.len() && before[k] == step;
        assert(steps[k] == step);
    }
}

/// The first part of all names is dropped exactly if it is the same for all entries
/// and something stands below it.
pub proof fn common_top_is_dropped(windows: bool, list: Seq<EntryView>, i: int, j: int)
    requires
        0 <= i < list.len(),
        0 <= j < list.len(),
    ensures
        entry_parts(windows, list[i]).len() > 0 && entry_parts(windows, list[j]).len() > 0
            && entry_parts(windows, list[i])[0] != entry_parts(windows, list[j])[0]
            ==> dropped_parts(windows, list) == 0,
        (forall|k: int|
            0 <= k < list.len() ==> entry_parts(windows, #[trigger] list[k]).len() <= 1)
            ==> dropped_parts(windows, list) == 0,
        entry_parts(windows, list[i]).len() > 1 && (forall|k: int|
            0 <= k < list.len() && entry_parts(windows, #[trigger] list[k]).len() > 0
                ==> entry_parts(windows, list[k])[0] == entry_parts(windows, list[i])[0])
            ==> dropped_parts(windows, list) == 1,
{
}

proof fn lemma_pushed_is_joined(list: Seq<Seq<char>>)
    requires
        forall|i: int|
            0 <= i < list.len() ==> (#[trigger] list[i]).len() > 0 && !list[i].contains('/'),
    ensures
        pushed(false, list) == text::joined(list, "/"@),
        list.len() > 0 ==> pushed(false, list).len() > 0 && pushed(false, list).last() != '/',
    decreases list.len(),
{
    if list.len() > 0 {
        let front = list.drop_last();
        let last = list.last();
        assert forall|i: int| 0 <= i < front.len() implies (#[trigger] front[i]).len() > 0
            && !front[i].contains('/') by {
            assert(front[i] == list[i]);
        }
        lemma_pushed_is_joined(front);
        assert(list[list.len() - 1] == last);
        assert(last.contains(last[0]) && last.contains(last[last.len() - 1]));
        paths::plain_paths(pushed(false, front), last);
        if list.len() == 1 {
            assert(pushed(false, front) =~= Seq::empty());
            assert(pushed(false, list) =~= last);
        } else {
            assert(front.len() > 0);
        }
    }
}

/// Where only `/` separates, an entry goes to the parts of its name that are left, with
/// `/` between them.
pub proof fn entries_keep_their_names(entry: EntryView, dropped: nat)
    requires
        forall|i: int|
            0 <= i < entry_parts(false, entry).len() ==> (#[trigger] entry_parts(
                false,
                entry,
            )[i]).len() > 0 && !entry_parts(false, entry)[i].contains('/'),
        dropped <= entry_parts(false, entry).len(),
    ensures
        relative_target(false, entry, dropped) == text::joined(
            entry_parts(false, entry).skip(dropped as int),
            "/"@,
        ),
{
    let rest = entry_parts(false, entry).skip(dropped as int);
    assert forall|i: int| 0 <= i < rest.len() implies (#[trigger] rest[i]).len() > 0
        && !rest[i].contains('/') by {
        assert(rest[i] == entry_parts(false, entry)[i + dropped]);
    }
    lemma_pushed_is_joined(rest);
}

/// An entry is refused if its name is absolute, holds a zero character or leads up at
/// once; a name whose parts never lead up is accepted where it is relative.
pub proof fn names_that_lead_out_are_refused(name: Seq<char>)
    ensures
        name.len() > 0 && name[0] == '/' ==> enclosed(false, name) is None,
        name.contains('\0') ==> enclosed(false, name) is None,
        paths::parts(false, name).len() > 0 && paths::parts(false, name)[0] == ".."@ ==> enclosed(
            false,
            name,
        ) is None,
        name.len() > 0 && name[0] != '/' && !name.contains('\0') && !paths::parts(
            false,
            name,
        ).contains(".."@) ==> enclosed(false, name) == Some(name),
{
    let list = paths::parts(false, name);
    if list.len() > 0 && list[0] == ".."@ {
        lemma_up_at_once(list);
    }
    if !list.contains(".."@) {
        lemma_depth_without_parents(list);
    }
}

proof fn lemma_up_at_once(list: Seq<Seq<char>>)
    requires
        list.len() > 0,
        list[0] == ".."@,
    ensures
        depth(list) < 0,
    decreases list.len(),
{
    reveal_with_fuel(depth, 2);
    if list.len() > 1 {
        lemma_up_at_once(list.drop_last());
    } else {
        assert(list.drop_last().len() == 0);
    }
}

/// Bytes that are no archive are refused, and so is an archive with an entry that
/// cannot be looked at.
pub proof fn damaged_archives_are_refused(
    windows: bool,
    bytes: Seq<u8>,
    destination: Seq<char>,
    i: int,
)
    ensures
        zip_listing(bytes) is None ==> unpacking(windows, bytes, destination) == Err::<
            Seq<ExtractView>,
            Seq<char>,
        >("invalid zip archive format"@),
        zip_listing(bytes) matches Some(list) ==> (0 <= i < list.len() && list[i] is None
            ==> unpacking(windows, bytes, destination) is Err),
{
    if let Some(list) = zip_listing(bytes) {
        if 0 <= i < list.len() && list[i] is None {
            lemma_unreadable_is_met(list, i);
        }
    }
}

proof fn lemma_unreadable_is_met(list: Seq<Option<(Seq<char>, Option<Seq<u8>>)>>, i: int)
    requires
        0 <= i < list.len(),
        list[i] is None,
    ensures
        0 <= first_unreadable(list) <= i,
    decreases list.len(),
{
    if list[0] is Some {
        assert(list.drop_first()[i - 1] == list[i]);
        lemma_unreadable_is_met(list.drop_first(), i - 1);
    }
}

// ---------------------------------------------------------------------------
// Functions
// ---------------------------------------------------------------------------

/// An entry of an archive.
#[derive(Debug)]
pub struct ArchiveEntry {
    /// Its name, if that stays inside the directory it is unpacked in.
    pub name: Option<String>,
    pub is_dir: bool,
}

impl View for ArchiveEntry {
    type V = EntryView;

    open spec fn view(&self) -> EntryView {
        EntryView { name: text::opt_text(self.name), is_dir: self.is_dir }
    }
}

/// The models of a list of entries.
pub open spec fn entry_views(list: Seq<ArchiveEntry>) -> Seq<EntryView> {
    list.map_values(|e: ArchiveEntry| e@)
}

/// What is done with one entry of an archive.
#[derive(Debug)]
pub enum PlannedStep {
    /// Create a directory.
    CreateDirectory(String),
    /// Create the parent directory and write the entry `index` to `path`.
    WriteFile { index: usize, parent: Option<String>, path: String },
}

impl View for PlannedStep {
    type V = StepView;

    open spec fn view(&self) -> StepView {
        match self {
            PlannedStep::CreateDirectory(path) => StepView::CreateDirectory(path@),
            PlannedStep::WriteFile { index, parent, path } => StepView::WriteFile {
                index: *index as int,
                parent: text::opt_text(*parent),
                path: path@,
            },
        }
    }
}

/// The models of a plan.
pub open spec fn step_views(list: Seq<PlannedStep>) -> Seq<StepView> {
    list.map_values(|s: PlannedStep| s@)
}

/// One step of unpacking an archive.
#[derive(Debug)]
pub enum ExtractStep {
    /// Create a directory.
    CreateDirectory(String),
    /// Create the parent directory and write `content` to `path`. Without content
    /// the entry cannot be read to its end, and the unpacking fails here.
    WriteFile { parent: Option<String>, path: String, content: Option<Vec<u8>> },
}

impl View for ExtractStep {
    type V = ExtractView;

    open spec fn view(&self) -> ExtractView {
        match self {
            ExtractStep::CreateDirectory(path) => ExtractView::CreateDirectory(path@),
            ExtractStep::WriteFile { parent, path, content } => ExtractView::WriteFile {
                parent: text::opt_text(*parent),
                path: path@,
                content: held(*content),
            },
        }
    }
}

/// The models of a list of steps.
pub open spec fn extract_views(list: Seq<ExtractStep>) -> Seq<ExtractView> {
    list.map_values(|s: ExtractStep| s@)
}

/// Whether the name of an entry stays inside the directory it is unpacked in, as
/// `enclosed_name` of the zip crate finds on the system in question.
pub fn is_enclosed(windows: bool, name: &str) -> (r: bool)
    ensures
        r == stays_inside(windows, name@),
{
    if text::has_char(name, '\0') || paths::has_lead_or_root(windows, name) {
        return false;
    }
    let list = paths::parts_of(windows, name);
    let ghost all = text::texts(list@);
    let mut deep: usize = 0;
    let mut i: usize = 0;
    while i < list.len()
        invariant
            deep <= i <= list@.len(),
            all == text::texts(list@),
            all == paths::parts(windows, name@),
            deep == depth(all.take(i as int)),
        decreases list.len() - i,
    {
        assert(all.take(i + 1).drop_last() == all.take(i as int));
        assert(all.take(i + 1).last() == list@[i as int]@);
        let part = list[i].as_str();
        if text::same_text(part, "..") {
            if deep == 0 {
                proof {
                    lemma_depth_stays_below(all, i + 1);
                }
                return false;
            }
            deep -= 1;
        } else if !text::same_text(part, ".") {
            deep += 1;
        }
        proof {
            reveal_strlit(".");
            reveal_strlit("..");
            assert("."@.len() != ".."@.len());
        }
        i += 1;
    }
    assert(all.take(all.len() as int) == all);
    true
}

proof fn lemma_depth_stays_below(list: Seq<Seq<char>>, n: int)
    requires
        0 <= n <= list.len(),
        depth(list.take(n)) < 0,
    ensures
        depth(list) < 0,
    decreases list.len(),
{
    if n == list.len() {
        assert(list.take(n) == list);
    } else {
        assert(list.drop_last().take(n) == list.take(n));
        lemma_depth_stays_below(list.drop_last(), n);
    }
}

fn parts_of_entry(windows: bool, entry: &ArchiveEntry) -> (r: Vec<String>)
    ensures
        text::texts(r@) == entry_parts(windows, entry@),
{
    match &entry.name {
        Some(name) => paths::parts_of(windows, name.as_str()),
        None => {
            let out: Vec<String> = Vec::new();
            assert(text::texts(out@) =~= Seq::empty());
            out
        },
    }
}

/// How many parts of the names of an archive's entries are dropped.
pub fn detect_common_top_level_component(entries: &Vec<ArchiveEntry>, windows: bool) -> (r: usize)
    ensures
        r == dropped_parts(windows, entry_views(entries@)),
{
    let ghost all = entry_views(entries@);
    let mut top: Option<String> = None;
    let mut at: usize = 0;
    let mut consistent = true;
    let mut nested = false;
    let mut i: usize = 0;
    while i < entries.len()
        invariant
            i <= entries@.len(),
            all == entry_views(entries@),
            top is None ==> consistent && !nested && forall|j: int|
                0 <= j < i ==> entry_parts(windows, #[trigger] all[j]).len() == 0,
            top matches Some(first) ==> at < i && entry_parts(windows, all[at as int]).len() > 0
                && entry_parts(windows, all[at as int])[0] == first@,
            top is Some && consistent ==> forall|j: int|
                0 <= j < i && entry_parts(windows, #[trigger] all[j]).len() > 0 ==> entry_parts(
                    windows,
                    all[j],
                )[0] == top->0@,
            !consistent ==> !one_top(windows, all),
            nested ==> some_nested(windows, all),
            !nested ==> forall|j: int|
                0 <= j < i ==> entry_parts(windows, #[trigger] all[j]).len() <= 1,
        decreases entries.len() - i,
    {
        let list = parts_of_entry(windows, &entries[i]);
        assert(all[i as int] == entries@[i as int]@);
        assert(list@.len() == entry_parts(windows, all[i as int]).len());
        if list.len() > 0 {
            assert(entry_parts(windows, all[i as int])[0] == list@[0]@);
            match &top {
                None => {
                    top = Some(list[0].clone());
                    at = i;
                },
                Some(first) => {
                    if *first != list[0] {
                        assert(entry_parts(windows, all[at as int])[0] != entry_parts(
                            windows,
                            all[i as int],
                        )[0]);
                        consistent = false;
                    }
                },
            }
            if list.len() > 1 {
                nested = true;
            }
        }
        i += 1;
    }
    if consistent && nested {
        1
    } else {
        0
    }
}

fn target_of_entry(windows: bool, entry: &ArchiveEntry, dropped: usize) -> (r: String)
    ensures
        r@ == relative_target(windows, entry@, dropped as nat),
{
    let list = parts_of_entry(windows, entry);
    let ghost all = entry_parts(windows, entry@);
    assert(list@.len() == all.len());
    if list.len() <= dropped {
        return String::new();
    }
    let ghost rest = all.skip(dropped as int);
    let mut out = String::new();
    let mut i: usize = dropped;
    assert(out@ =~= pushed(windows, rest.take(0)));
    while i < list.len()
        invariant
            dropped <= i <= list@.len(),
            all == text::texts(list@),
            rest == all.skip(dropped as int),
            out@ == pushed(windows, rest.take(i - dropped)),
        decreases list.len() - i,
    {
        assert(rest.take(i + 1 - dropped).drop_last() == rest.take(i - dropped));
        assert(rest.take(i + 1 - dropped).last() == list@[i as int]@);
        out = paths::join(windows, out.as_str(), list[i].as_str());
        i += 1;
    }
    assert(rest.take(rest.len() as int) == rest);
    out
}

/// How the entries of an archive are unpacked into `destination`.
pub fn plan_extraction(entries: &Vec<ArchiveEntry>, destination: &str, windows: bool) -> (r: Vec<
    PlannedStep,
>)
    ensures
        step_views(r@) == unpacking_of(windows, entry_views(entries@), destination@),
{
    let ghost all = entry_views(entries@);
    let dropped = detect_common_top_level_component(entries, windows);
    let mut out: Vec<PlannedStep> = Vec::new();
    let mut i: usize = 0;
    assert(step_views(out@) =~= steps_up_to(windows, all, 0, dropped as nat, destination@));
    while i < entries.len()
        invariant
            i <= entries@.len(),
            all == entry_views(entries@),
            step_views(out@) == steps_up_to(windows, all, i as int, dropped as nat, destination@),
        decreases entries.len() - i,
    {
        let ghost before = step_views(out@);
        let ghost more = steps_for(windows, all, i as int, dropped as nat, destination@);
        assert(all[i as int] == entries@[i as int]@);
        let relative = target_of_entry(windows, &entries[i], dropped);
        if entries[i].name.is_some() && !relative.as_str().is_empty() {
            let path = paths::join(windows, destination, relative.as_str());
            if entries[i].is_dir {
                out.push(PlannedStep::CreateDirectory(path));
            } else {
                let parent = paths::parent_of(windows, path.as_str());
                out.push(PlannedStep::WriteFile { index: i, parent, path });
            }
        }
        assert(step_views(out@) =~= before + more);
        i += 1;
    }
    out
}

proof fn lemma_first_unreadable(list: Seq<Option<(Seq<char>, Option<Seq<u8>>)>>, n: int)
    requires
        0 <= n <= list.len(),
        forall|i: int| 0 <= i < n ==> (#[trigger] list[i]) is Some,
        n < list.len() ==> list[n] is None,
    ensures
        first_unreadable(list) == n,
    decreases n,
{
    if n > 0 {
        let rest = list.drop_first();
        assert forall|i: int| 0 <= i < n - 1 implies (#[trigger] rest[i]) is Some by {
            assert(rest[i] == list[i + 1]);
        }
        lemma_first_unreadable(rest, n - 1);
    }
}

/// How the archive that some bytes make is unpacked into `destination`.
pub fn extract_zip_archive(bytes: Vec<u8>, destination: &str, windows: bool) -> (r: Result<
    Vec<ExtractStep>,
    Failure,
>)
    ensures
        match unpacking(windows, bytes@, destination@) {
            Ok(steps) => r is Ok && extract_views(r->Ok_0@) == steps,
            Err(message) => r is Err && r->Err_0@ == message,
        },
        r is Ok ==> names_stay_inside(windows, readable(windows, zip_listing(bytes@)->0)),
{
    let mut archive = match zip_open(bytes) {
        Some(archive) => archive,
        None => {
            return Err(Failure::new("invalid zip archive format".to_owned()));
        },
    };
    let ghost list = zip_entries(archive);
    let count = zip_len(&archive);
    let mut entries: Vec<ArchiveEntry> = Vec::new();
    let mut i: usize = 0;
    while i < count
        invariant
            i <= count == list.len(),
            zip_listing(bytes@) == Some(list),
            zip_entries(archive) == list,
            entries@.len() == i,
            forall|j: int| 0 <= j < i ==> (#[trigger] list[j]) is Some,
            forall|j: int| 0 <= j < i ==> #[trigger] entries@[j]@ == readable(windows, list)[j],
        decreases count - i,
    {
        match zip_entry(&mut archive, i) {
            Some((raw, is_dir)) => {
                let name = if is_enclosed(windows, raw.as_str()) {
                    Some(raw)
                } else {
                    None
                };
                let entry = ArchiveEntry { name, is_dir };
                assert(entry@ =~= readable(windows, list)[i as int]);
                entries.push(entry);
            },
            None => {
                proof {
                    lemma_first_unreadable(list, i as int);
                }
                let mut message = "failed to inspect archive entry ".to_owned();
                message.append(text::to_decimal(i as u64).as_str());
                return Err(Failure::new(message));
            },
        }
        i += 1;
    }
    proof {
        lemma_first_unreadable(list, list.len() as int);
    }
    assert(entry_views(entries@) =~= readable(windows, list));
    let plan = plan_extraction(&entries, destination, windows);
    let ghost steps = step_views(plan@);
    let mut out: Vec<ExtractStep> = Vec::new();
    let mut k: usize = 0;
    while k < plan.len()
        invariant
            k <= plan@.len(),
            zip_entries(archive) == list,
            forall|j: int| 0 <= j < list.len() ==> (#[trigger] list[j]) is Some,
            steps == step_views(plan@),
            steps == unpacking_of(windows, readable(windows, list), destination@),
            out@.len() == k,
            forall|j: int| 0 <= j < k ==> #[trigger] out@[j]@ == with_content(list, steps[j]),
        decreases plan.len() - k,
    {
        proof {
            assert(steps[k as int] == plan@[k as int]@);
            let i = lemma_steps_unpack(
                windows,
                readable(windows, list),
                destination@,
                list.len() as int,
                k as int,
            );
        }
        let step = match &plan[k] {
            PlannedStep::CreateDirectory(path) => ExtractStep::CreateDirectory(path.clone()),
            PlannedStep::WriteFile { index, parent, path } => ExtractStep::WriteFile {
                parent: text::copied_opt(parent),
                path: path.clone(),
                content: zip_content(&mut archive, *index),
            },
        };
        out.push(step);
        k += 1;
    }
    assert(extract_views(out@) =~= with_contents(list, steps));
    Ok(out)
}

}
