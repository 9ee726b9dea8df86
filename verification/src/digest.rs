//! Digests and quotations.
use vstd::prelude::*;
use vstd::string::*;

use crate::ordered_map;
use crate::ordered_map::OrderedMap;
use crate::text;

verus! {

broadcast use vstd::string::group_string_axioms;

/// The SHA-256 digest of `data`, in lower case hexadecimal digits.
pub uninterp spec fn sha256_hex_of(data: Seq<u8>) -> Seq<char>;

/// A lower case hexadecimal digit.
pub open spec fn is_hex_digit(c: char) -> bool {
    ('0' <= c && c <= '9') || ('a' <= c && c <= 'f')
}

/// A digest as it is written: 64 lower case hexadecimal digits.
pub open spec fn is_digest(s: Seq<char>) -> bool {
    &&& s.len() == 64
    &&& forall|i: int| 0 <= i < 64 ==> is_hex_digit(#[trigger] s[i])
}

/// Calls `sha2::Sha256::digest` and writes the digest with `{:x}`. Trusted: the
/// text depends on the bytes alone and is made of 64 lower case hexadecimal digits.
#[verifier::external_body]
pub(crate) fn sha256_hex(data: &[u8]) -> (r: String)
    ensures
        r@ == sha256_hex_of(data@),
        r@.len() == 64,
        forall|i: int| 0 <= i < r@.len() ==> is_hex_digit(#[trigger] r@[i]),
{
    format!("{:x}", <sha2::Sha256 as sha2::Digest>::digest(data))
}

/// `s` between double quotes, with its special characters escaped.
pub uninterp spec fn quoted(s: Seq<char>) -> Seq<char>;

/// Writes a text with std's `{:?}`. Trusted: the result depends on the text alone.
#[verifier::external_body]
pub(crate) fn quote(s: &str) -> (r: String)
    ensures
        r@ == quoted(s@),
{
    format!("{:?}", s)
}

/// The digest of a text: that of its UTF-8 bytes.
pub open spec fn text_digest(s: Seq<char>) -> Seq<char> {
    sha256_hex_of(vstd::utf8::encode_utf8(s))
}

/// An optional text as `Some("..")` or `None`.
pub open spec fn quoted_opt(value: Option<Seq<char>>) -> Seq<char> {
    match value {
        Some(s) => "Some("@ + quoted(s) + ")"@,
        None => "None"@,
    }
}

/// An optional truth value as `Some(true)`, `Some(false)` or `None`.
pub open spec fn shown_flag(value: Option<bool>) -> Seq<char> {
    match value {
        Some(true) => "Some(true)"@,
        Some(false) => "Some(false)"@,
        None => "None"@,
    }
}

/// A list of texts as `["..", ".."]`.
pub open spec fn quoted_list(list: Seq<Seq<char>>) -> Seq<char> {
    "["@ + text::joined(list.map_values(|s: Seq<char>| quoted(s)), ", "@) + "]"@
}

/// A map of texts as `{"..": "..", "..": ".."}`.
pub open spec fn quoted_map(entries: Seq<(Seq<char>, Seq<char>)>) -> Seq<char> {
    "{"@ + text::joined(
        entries.map_values(|e: (Seq<char>, Seq<char>)| quoted(e.0) + ": "@ + quoted(e.1)),
        ", "@,
    ) + "}"@
}

/// The digest of a text.
pub fn digest_of_text(s: &str) -> (r: String)
    ensures
        r@ == text_digest(s@),
        is_digest(r@),
        text::trimmed(r@) == r@,
{
    let r = sha256_hex(s.as_bytes());
    assert(!text::is_white(r@[0]) && !text::is_white(r@.last())) by {
        assert(is_hex_digit(r@[0]) && is_hex_digit(r@[r@.len() - 1]));
    }
    r
}

/// The digest of the contents of a file.
pub fn digest_of_bytes(data: &Vec<u8>) -> (r: String)
    ensures
        r@ == sha256_hex_of(data@),
        is_digest(r@),
{
    sha256_hex(data.as_slice())
}

/// An optional text as it is written into digests.
pub fn quote_opt(value: &Option<String>) -> (r: String)
    ensures
        r@ == quoted_opt(text::opt_text(*value)),
{
    match value {
        Some(s) => {
            let mut out = "Some(".to_owned();
            out.append(quote(s.as_str()).as_str());
            out.append(")");
            out
        },
        None => "None".to_owned(),
    }
}

/// An optional truth value as it is written into digests.
pub fn show_flag(value: Option<bool>) -> (r: String)
    ensures
        r@ == shown_flag(value),
{
    match value {
        Some(true) => "Some(true)".to_owned(),
        Some(false) => "Some(false)".to_owned(),
        None => "None".to_owned(),
    }
}

/// A list of texts as it is written into digests.
pub fn quote_list(list: &Vec<String>) -> (r: String)
    ensures
        r@ == quoted_list(text::texts(list@)),
{
    let mut parts: Vec<String> = Vec::new();
    let mut i: usize = 0;
    while i < list.len()
        invariant
            i <= list@.len(),
            parts@.len() == i,
            forall|j: int| 0 <= j < i ==> #[trigger] parts@[j]@ == quoted(list@[j]@),
        decreases list.len() - i,
    {
        parts.push(quote(list[i].as_str()));
        i += 1;
    }
    assert(text::texts(parts@) =~= text::texts(list@).map_values(|s: Seq<char>| quoted(s)));
    let mut out = "[".to_owned();
    out.append(text::join(&parts, ", ").as_str());
    out.append("]");
    out
}

/// A map of texts as it is written into digests.
pub fn quote_map(map: &OrderedMap<String>) -> (r: String)
    ensures
        r@ == quoted_map(ordered_map::text_pairs(map@)),
{
    let mut parts: Vec<String> = Vec::new();
    let count = map.len();
    let mut i: usize = 0;
    while i < count
        invariant
            i <= count == map@.len(),
            parts@.len() == i,
            forall|j: int|
                0 <= j < i ==> #[trigger] parts@[j]@ == quoted(map@[j].0) + ": "@ + quoted(
                    map@[j].1@,
                ),
        decreases count - i,
    {
        let mut part = quote(map.key_at(i).as_str());
        part.append(": ");
        part.append(quote(map.value_at(i).as_str()).as_str());
        parts.push(part);
        i += 1;
    }
    assert(text::texts(parts@) =~= ordered_map::text_pairs(map@).map_values(
        |e: (Seq<char>, Seq<char>)| quoted(e.0) + ": "@ + quoted(e.1),
    ));
    let mut out = "{".to_owned();
    out.append(text::join(&parts, ", ").as_str());
    out.append("}");
    out
}

// ---------------------------------------------------------------------------
// Laws
// ---------------------------------------------------------------------------

/// What is set is told from what is not, and each value of a flag from the other.
pub proof fn settings_are_told_apart(value: Option<Seq<char>>, flag: Option<bool>)
    ensures
        value matches Some(s) ==> quoted_opt(value) == "Some("@ + quoted(s) + ")"@,
        value is None ==> quoted_opt(value) == "None"@,
        flag == Some(true) ==> shown_flag(flag) == "Some(true)"@,
        flag == Some(false) ==> shown_flag(flag) == "Some(false)"@,
        flag is None ==> shown_flag(flag) == "None"@,
{
}

/// A list is written with all its items and a map with all its entries, each in quotes.
pub proof fn lists_are_written_whole(
    list: Seq<Seq<char>>,
    entries: Seq<(Seq<char>, Seq<char>)>,
    i: int,
)
    ensures
        0 <= i < list.len() ==> text::has_text(quoted_list(list), quoted(list[i])),
        0 <= i < list.len() - 1 ==> text::has_text(
            quoted_list(list),
            quoted(list[i]) + ", "@ + quoted(list[i + 1]),
        ),
        0 <= i < entries.len() ==> text::has_text(
            quoted_map(entries),
            quoted(entries[i].0) + ": "@ + quoted(entries[i].1),
        ),
        list.len() == 0 ==> quoted_list(list) == "[]"@,
        entries.len() == 0 ==> quoted_map(entries) == "{}"@,
{
    text::lemma_held();
    let items = list.map_values(|s: Seq<char>| quoted(s));
    let pairs = entries.map_values(
        |e: (Seq<char>, Seq<char>)| quoted(e.0) + ": "@ + quoted(e.1),
    );
    if 0 <= i < list.len() {
        text::joined_items_are_held(items, ", "@, i);
    }
    if 0 <= i < list.len() - 1 {
        text::separators_stand_between_neighbours(items, ", "@, i);
    }
    if 0 <= i < entries.len() {
        text::joined_items_are_held(pairs, ", "@, i);
    }
    reveal_strlit("[");
    reveal_strlit("]");
    reveal_strlit("[]");
    reveal_strlit("{");
    reveal_strlit("}");
    reveal_strlit("{}");
    if list.len() == 0 {
        assert(quoted_list(list) =~= "[]"@);
    }
    if entries.len() == 0 {
        assert(quoted_map(entries) =~= "{}"@);
    }
}

}
