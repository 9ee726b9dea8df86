//! A map from texts to values that is walked in the order of its keys.
use vstd::prelude::*;

use crate::text;

verus! {

broadcast use vstd::string::group_string_axioms;

/// The keys of `entries` increase strictly.
pub open spec fn keys_increase<V>(entries: Seq<(Seq<char>, V)>) -> bool {
    forall|i: int, j: int| 0 <= i < j < entries.len() ==> text::text_lt(entries[i].0, entries[j].0)
}

/// Some entry has the key `key`.
pub open spec fn has_key<V>(entries: Seq<(Seq<char>, V)>, key: Seq<char>) -> bool {
    exists|i: int| 0 <= i < entries.len() && entries[i].0 == key
}

/// Where `entries` has the key `key`.
pub open spec fn key_index<V>(entries: Seq<(Seq<char>, V)>, key: Seq<char>) -> int {
    choose|i: int| 0 <= i < entries.len() && entries[i].0 == key
}

/// The value that `entries` gives to `key`.
pub open spec fn value_of<V>(entries: Seq<(Seq<char>, V)>, key: Seq<char>) -> V {
    entries[key_index(entries, key)].1
}

/// What `entries` says of `key`.
pub open spec fn lookup<V>(entries: Seq<(Seq<char>, V)>, key: Seq<char>) -> Option<V> {
    if has_key(entries, key) {
        Some(value_of(entries, key))
    } else {
        None
    }
}

/// The map that `entries` lists.
pub open spec fn map_of<V>(entries: Seq<(Seq<char>, V)>) -> Map<Seq<char>, V> {
    Map::new(|key: Seq<char>| has_key(entries, key), |key: Seq<char>| value_of(entries, key))
}

/// The entries of a map to strings, as texts.
pub open spec fn text_pairs(entries: Seq<(Seq<char>, String)>) -> Seq<(Seq<char>, Seq<char>)> {
    entries.map_values(|e: (Seq<char>, String)| (e.0, e.1@))
}

pub proof fn lemma_key_once<V>(entries: Seq<(Seq<char>, V)>, i: int, j: int)
    requires
        keys_increase(entries),
        0 <= i < entries.len(),
        0 <= j < entries.len(),
        entries[i].0 == entries[j].0,
    ensures
        i == j,
{
    text::lemma_text_lt_irreflexive(entries[i].0);
}

pub proof fn lemma_value_of<V>(entries: Seq<(Seq<char>, V)>, i: int)
    requires
        keys_increase(entries),
        0 <= i < entries.len(),
    ensures
        has_key(entries, entries[i].0),
        value_of(entries, entries[i].0) == entries[i].1,
        lookup(entries, entries[i].0) == Some(entries[i].1),
{
    lemma_key_once(entries, i, key_index(entries, entries[i].0));
}

proof fn lemma_map_of<V>(entries: Seq<(Seq<char>, V)>, key: Seq<char>)
    ensures
        map_of(entries).dom().contains(key) == has_key(entries, key),
        has_key(entries, key) ==> map_of(entries)[key] == value_of(entries, key),
{
}

/// Two lists of entries whose keys increase and that make the same map are the same list.
pub proof fn lemma_map_fixes_entries<V>(a: Seq<(Seq<char>, V)>, b: Seq<(Seq<char>, V)>)
    requires
        keys_increase(a),
        keys_increase(b),
        map_of(a) == map_of(b),
    ensures
        a == b,
    decreases a.len(),
{
    if a.len() == 0 {
        if b.len() > 0 {
            lemma_value_of(b, 0);
            assert(map_of(b).dom().contains(b[0].0));
            assert(map_of(a).dom().contains(b[0].0));
        }
        assert(a =~= b);
    } else {
        lemma_value_of(a, a.len() - 1);
        assert(map_of(a).dom().contains(a.last().0));
        assert(has_key(b, a.last().0));
        lemma_value_of(b, b.len() - 1);
        assert(map_of(b).dom().contains(b.last().0));
        assert(has_key(a, b.last().0));
        let i = choose|i: int| 0 <= i < b.len() && b[i].0 == a.last().0;
        let j = choose|j: int| 0 <= j < a.len() && a[j].0 == b.last().0;
        if i != b.len() - 1 {
            assert(text::text_lt(b[i].0, b.last().0));
            if j != a.len() - 1 {
                text::lemma_text_lt_transitive(a.last().0, b.last().0, a.last().0);
            }
            text::lemma_text_lt_irreflexive(a.last().0);
        }
        assert(a.last().0 == b.last().0);
        assert(map_of(a)[a.last().0] == map_of(b)[a.last().0]);
        let x = a.drop_last();
        let y = b.drop_last();
        assert forall|key: Seq<char>| has_key(x, key) == has_key(y, key) && (has_key(x, key)
            ==> value_of(x, key) == value_of(y, key)) by {
            lemma_shorter(a, key);
            lemma_shorter(b, key);
            lemma_map_of(a, key);
            lemma_map_of(b, key);
        }
        assert(map_of(x) =~= map_of(y));
        lemma_map_of(a, a.last().0);
        lemma_map_of(b, b.last().0);
        lemma_shorter(a, a.last().0);
        lemma_shorter(b, b.last().0);
        lemma_map_fixes_entries(x, y);
        assert(a =~= x.push(a.last()));
        assert(b =~= y.push(b.last()));
    }
}

/// The entries of a map in the order of their keys.
pub open spec fn entries_of<V>(map: Map<Seq<char>, V>) -> Seq<(Seq<char>, V)> {
    choose|entries: Seq<(Seq<char>, V)>|
        keys_increase(entries) && #[trigger] map_of(entries) == map
}

/// A list of entries whose keys increase is that of its map.
pub proof fn lemma_entries_of<V>(entries: Seq<(Seq<char>, V)>)
    requires
        keys_increase(entries),
    ensures
        entries_of(map_of(entries)) == entries,
{
    lemma_map_fixes_entries(entries_of(map_of(entries)), entries);
}

/// The map that the texts of `entries` list is that of `entries`, with texts as values.
pub proof fn lemma_text_pairs(entries: Seq<(Seq<char>, String)>)
    requires
        keys_increase(entries),
    ensures
        keys_increase(text_pairs(entries)),
        map_of(text_pairs(entries)) == map_of(entries).map_values(|s: String| s@),
{
    let pairs = text_pairs(entries);
    assert forall|i: int, j: int| 0 <= i < j < pairs.len() implies text::text_lt(
        pairs[i].0,
        pairs[j].0,
    ) by {
        assert(text::text_lt(entries[i].0, entries[j].0));
    }
    assert forall|key: Seq<char>| has_key(pairs, key) == has_key(entries, key) && (has_key(
        entries,
        key,
    ) ==> value_of(pairs, key) == value_of(entries, key)@) by {
        if has_key(entries, key) {
            let i = key_index(entries, key);
            assert(pairs[i].0 == key);
            lemma_value_of(pairs, i);
            lemma_value_of(entries, i);
        }
        if has_key(pairs, key) {
            let i = key_index(pairs, key);
            assert(entries[i].0 == key);
        }
    }
    assert(map_of(pairs) =~= map_of(entries).map_values(|s: String| s@));
}

proof fn lemma_shorter<V>(a: Seq<(Seq<char>, V)>, key: Seq<char>)
    requires
        keys_increase(a),
        a.len() > 0,
    ensures
        keys_increase(a.drop_last()),
        has_key(a.drop_last(), key) == (has_key(a, key) && key != a.last().0),
        has_key(a.drop_last(), key) ==> value_of(a.drop_last(), key) == value_of(a, key),
{
    let x = a.drop_last();
    if has_key(x, key) {
        let i = choose|i: int| 0 <= i < x.len() && x[i].0 == key;
        assert(a[i].0 == key);
        if key == a.last().0 {
            lemma_key_once(a, i, a.len() - 1);
        }
        lemma_value_of(a, i);
        lemma_value_of(x, i);
    }
    if has_key(a, key) && key != a.last().0 {
        let i = choose|i: int| 0 <= i < a.len() && a[i].0 == key;
        assert(x[i].0 == key);
    }
}

/// A map whose entries are kept in the order of their keys, each key once.
#[derive(Debug)]
pub struct OrderedMap<V> {
    entries: Vec<(String, V)>,
}

impl<V> View for OrderedMap<V> {
    type V = Seq<(Seq<char>, V)>;

    closed spec fn view(&self) -> Seq<(Seq<char>, V)> {
        listed(self.entries@)
    }
}

spec fn listed<V>(entries: Seq<(String, V)>) -> Seq<(Seq<char>, V)> {
    entries.map_values(|e: (String, V)| (e.0@, e.1))
}

impl<V> OrderedMap<V> {
    #[verifier::type_invariant]
    spec fn ordered(self) -> bool {
        keys_increase(listed(self.entries@))
    }

    /// The map without entries.
    pub fn new() -> (r: Self)
        ensures
            r@ == Seq::<(Seq<char>, V)>::empty(),
    {
        let r: OrderedMap<V> = OrderedMap { entries: Vec::new() };
        assert(r@ =~= Seq::<(Seq<char>, V)>::empty());
        r
    }

    /// How many entries the map has.
    pub fn len(&self) -> (r: usize)
        ensures
            r == self@.len(),
            keys_increase(self@),
    {
        proof {
            use_type_invariant(self);
        }
        self.entries.len()
    }

    /// The key of the entry at `index`.
    pub fn key_at(&self, index: usize) -> (r: &String)
        requires
            index < self@.len(),
        ensures
            r@ == self@[index as int].0,
    {
        &self.entries[index].0
    }

    /// The value of the entry at `index`.
    pub fn value_at(&self, index: usize) -> (r: &V)
        requires
            index < self@.len(),
        ensures
            *r == self@[index as int].1,
    {
        &self.entries[index].1
    }

    fn find(&self, key: &str) -> (r: (usize, bool))
        ensures
            keys_increase(self@),
            r.0 <= self@.len(),
            r.1 ==> r.0 < self@.len() && self@[r.0 as int].0 == key@,
            !r.1 ==> !has_key(self@, key@),
            forall|j: int| 0 <= j < r.0 ==> text::text_lt(self@[j].0, key@),
            !r.1 ==> forall|j: int| r.0 <= j < self@.len() ==> text::text_lt(key@, self@[j].0),
    {
        proof {
            use_type_invariant(self);
        }
        let mut i: usize = 0;
        while i < self.entries.len() && text::text_before(self.entries[i].0.as_str(), key)
            invariant
                i <= self@.len(),
                self@ == listed(self.entries@),
                keys_increase(self@),
                forall|j: int| 0 <= j < i ==> text::text_lt(self@[j].0, key@),
            decreases self.entries.len() - i,
        {
            i += 1;
        }
        if i < self.entries.len() && text::same_text(self.entries[i].0.as_str(), key) {
            (i, true)
        } else {
            proof {
                if i < self@.len() {
                    text::lemma_text_lt_total(self@[i as int].0, key@);
                    assert forall|j: int| i <= j < self@.len() implies text::text_lt(
                        key@,
                        self@[j].0,
                    ) by {
                        if j > i {
                            text::lemma_text_lt_transitive(key@, self@[i as int].0, self@[j].0);
                        }
                    }
                }
                assert forall|j: int| 0 <= j < self@.len() implies self@[j].0 != key@ by {
                    text::lemma_text_lt_irreflexive(key@);
                }
            }
            (i, false)
        }
    }

    /// The value of `key`, if it has one.
    pub fn get(&self, key: &str) -> (r: Option<&V>)
        ensures
            r is Some <==> lookup(self@, key@) is Some,
            r matches Some(v) ==> Some(*v) == lookup(self@, key@),
    {
        let (i, found) = self.find(key);
        if found {
            proof {
                lemma_value_of(self@, i as int);
            }
            Some(&self.entries[i].1)
        } else {
            None
        }
    }

    /// Whether the map has an entry for `key`.
    pub fn contains_key(&self, key: &str) -> (r: bool)
        ensures
            r == has_key(self@, key@),
    {
        let (i, found) = self.find(key);
        found
    }

    /// Gives `key` the value `value`.
    pub fn insert(&mut self, key: String, value: V)
        ensures
            keys_increase(old(self)@),
            keys_increase(final(self)@),
            map_of(final(self)@) == map_of(old(self)@).insert(key@, value),
    {
        let ghost before = self@;
        let (i, found) = self.find(key.as_str());
        let ghost k = key@;
        let ghost pair = (k, value);
        let mut entries: Vec<(String, V)> = Vec::new();
        std::mem::swap(&mut entries, &mut self.entries);
        if found {
            entries.set(i, (key, value));
            assert(listed(entries@) =~= before.update(i as int, pair));
        } else {
            entries.insert(i, (key, value));
            assert(listed(entries@) =~= before.insert(i as int, pair));
        }
        proof {
            let after = listed(entries@);
            assert(keys_increase(after));
            lemma_value_of(after, i as int);
            assert(map_of(after) =~= map_of(before).insert(k, value)) by {
                assert forall|other: Seq<char>| other != k implies has_key(after, other) == has_key(
                    before,
                    other,
                ) && (has_key(after, other) ==> value_of(after, other) == value_of(
                    before,
                    other,
                )) by {
                    if has_key(before, other) {
                        let j = choose|j: int| 0 <= j < before.len() && before[j].0 == other;
                        let m = if found || j < i { j } else { j + 1 };
                        assert(after[m].0 == other);
                        lemma_value_of(before, j);
                        lemma_value_of(after, m);
                    }
                    if has_key(after, other) {
                        let j = choose|j: int| 0 <= j < after.len() && after[j].0 == other;
                        let m = if found || j < i { j } else { j - 1 };
                        assert(before[m].0 == other);
                    }
                }
            }
        }
        self.entries = entries;
    }
}

impl<V: Clone> Clone for OrderedMap<V> {
    fn clone(&self) -> (r: Self)
        ensures
            r@.len() == self@.len(),
            forall|i: int|
                0 <= i < self@.len() ==> #[trigger] r@[i].0 == self@[i].0 && cloned::<V>(
                    self@[i].1,
                    r@[i].1,
                ),
    {
        proof {
            use_type_invariant(self);
        }
        let mut entries: Vec<(String, V)> = Vec::new();
        let mut i: usize = 0;
        while i < self.entries.len()
            invariant
                i <= self.entries@.len(),
                entries@.len() == i,
                forall|j: int|
                    0 <= j < i ==> #[trigger] entries@[j].0 == self.entries@[j].0 && cloned::<V>(
                        self.entries@[j].1,
                        entries@[j].1,
                    ),
            decreases self.entries.len() - i,
        {
            entries.push((self.entries[i].0.clone(), self.entries[i].1.clone()));
            i += 1;
        }
        assert forall|a: int, b: int| 0 <= a < b < entries@.len() implies text::text_lt(
            listed(entries@)[a].0,
            listed(entries@)[b].0,
        ) by {
            assert(text::text_lt(listed(self.entries@)[a].0, listed(self.entries@)[b].0));
        }
        OrderedMap { entries }
    }
}

impl OrderedMap<String> {
    /// A copy of the map.
    pub fn copied(&self) -> (r: Self)
        ensures
            r@ == self@,
    {
        proof {
            use_type_invariant(self);
        }
        let mut entries: Vec<(String, String)> = Vec::new();
        let mut i: usize = 0;
        while i < self.entries.len()
            invariant
                i <= self.entries@.len(),
                entries@ == self.entries@.take(i as int),
            decreases self.entries.len() - i,
        {
            entries.push((self.entries[i].0.clone(), self.entries[i].1.clone()));
            i += 1;
        }
        assert(entries@ == self.entries@);
        OrderedMap { entries }
    }

    /// Whether two maps hold the same entries.
    pub fn same(&self, other: &Self) -> (r: bool)
        ensures
            r == (text_pairs(self@) == text_pairs(other@)),
    {
        if self.entries.len() != other.entries.len() {
            assert(text_pairs(self@).len() != text_pairs(other@).len());
            return false;
        }
        let mut i: usize = 0;
        while i < self.entries.len()
            invariant
                i <= self.entries@.len() == other.entries@.len(),
                forall|j: int|
                    0 <= j < i ==> #[trigger] text_pairs(self@)[j] == text_pairs(other@)[j],
            decreases self.entries.len() - i,
        {
            if self.entries[i].0 != other.entries[i].0 || self.entries[i].1 != other.entries[i].1 {
                assert(text_pairs(self@)[i as int] != text_pairs(other@)[i as int]);
                return false;
            }
            i += 1;
        }
        assert(text_pairs(self@) =~= text_pairs(other@));
        true
    }
}

}
