//! The flat table: string keys to string values, each key once, in the order
//! in which the keys first came in.

use indexmap::IndexMap;
use vstd::prelude::*;

verus! {

/// One row of a table, as mathematics sees it: the key, then the value.
pub type Entry = (Seq<char>, Seq<char>);

/// `indexmap::IndexMap`, the hash map that keeps the order of insertion.
#[verifier::external_type_specification]
#[verifier::external_body]
#[verifier::reject_recursive_types(K)]
#[verifier::reject_recursive_types(V)]
#[verifier::reject_recursive_types(S)]
pub struct ExIndexMap<K, V, S>(indexmap::IndexMap<K, V, S>);

/// The key-value pairs that an `IndexMap` of strings holds, in its own order,
/// each string by its characters.
pub uninterp spec fn map_entries(m: IndexMap<String, String>) -> Seq<Entry>;

/// The first index at which `key` stands in `t`, or `t.len()` where it does
/// not occur.
pub open spec fn index_of_key(t: Seq<Entry>, key: Seq<char>) -> int
    decreases t.len(),
{
    if t.len() == 0 || t[0].0 == key {
        0
    } else {
        1 + index_of_key(t.drop_first(), key)
    }
}

/// The value that `t` holds for `key`, if any.
pub open spec fn lookup(t: Seq<Entry>, key: Seq<char>) -> Option<Seq<char>> {
    let i = index_of_key(t, key);
    if i < t.len() {
        Some(t[i].1)
    } else {
        None
    }
}

/// `t` after `key` was given `value`: a key that is there keeps its place and
/// takes the new value, a new key goes to the end.
pub open spec fn put(t: Seq<Entry>, key: Seq<char>, value: Seq<char>) -> Seq<Entry> {
    let i = index_of_key(t, key);
    if i < t.len() {
        t.update(i, (key, value))
    } else {
        t.push((key, value))
    }
}

/// No key stands in `t` twice.
pub open spec fn distinct_keys(t: Seq<Entry>) -> bool {
    forall|i: int, j: int| 0 <= i < j < t.len() ==> (#[trigger] t[i]).0 != (#[trigger] t[j]).0
}

/// `t` after each pair of `entries` was put into it, the first one first.
pub open spec fn put_all(t: Seq<Entry>, entries: Seq<Entry>) -> Seq<Entry>
    decreases entries.len(),
{
    if entries.len() == 0 {
        t
    } else {
        put(put_all(t, entries.drop_last()), entries.last().0, entries.last().1)
    }
}

/// `index_of_key` is the first place of the key: the key stands there, and
/// nowhere before.
pub proof fn lemma_index_of_key(t: Seq<Entry>, key: Seq<char>)
    ensures
        0 <= index_of_key(t, key) <= t.len(),
        index_of_key(t, key) < t.len() ==> t[index_of_key(t, key)].0 == key,
        forall|i: int| 0 <= i < index_of_key(t, key) ==> (#[trigger] t[i]).0 != key,
    decreases t.len(),
{
    if t.len() > 0 && t[0].0 != key {
        lemma_index_of_key(t.drop_first(), key);
        assert forall|i: int| 0 <= i < index_of_key(t, key) implies (#[trigger] t[i]).0 != key by {
            if i > 0 {
                assert(t[i] == t.drop_first()[i - 1]);
            }
        }
    }
}

/// Putting a pair keeps the keys distinct, keeps every other key's value, and
/// makes the key hold the value.
pub proof fn lemma_put(t: Seq<Entry>, key: Seq<char>, value: Seq<char>)
    ensures
        distinct_keys(t) ==> distinct_keys(put(t, key, value)),
        lookup(put(t, key, value), key) == Some(value),
        forall|other: Seq<char>| other != key ==> lookup(put(t, key, value), other) == lookup(t, other),
        put(t, key, value).len() == if lookup(t, key) is Some { t.len() } else { t.len() + 1 },
{
    let after = put(t, key, value);
    lemma_index_of_key(t, key);
    let i = index_of_key(t, key);
    lemma_index_of_key(after, key);
    assert(after[i].0 == key);
    assert forall|other: Seq<char>| other != key implies lookup(after, other) == lookup(t, other) by {
        lemma_index_of_key(t, other);
        lemma_index_of_key(after, other);
        let a = index_of_key(t, other);
        if a < t.len() {
            assert(after[a].0 == other);
        }
    }
}

/// Putting pairs one after another keeps the keys distinct.
pub proof fn lemma_put_all_distinct(t: Seq<Entry>, entries: Seq<Entry>)
    requires
        distinct_keys(t),
    ensures
        distinct_keys(put_all(t, entries)),
    decreases entries.len(),
{
    if entries.len() > 0 {
        lemma_put_all_distinct(t, entries.drop_last());
        lemma_put(put_all(t, entries.drop_last()), entries.last().0, entries.last().1);
    }
}

/// The value of the last pair of `entries` that has `key`, if one has it.
pub open spec fn last_value(entries: Seq<Entry>, key: Seq<char>) -> Option<Seq<char>>
    decreases entries.len(),
{
    if entries.len() == 0 {
        None
    } else if entries.last().0 == key {
        Some(entries.last().1)
    } else {
        last_value(entries.drop_last(), key)
    }
}

/// After pairs were put into a table, a key holds the value of the last pair
/// that had it; a key that no pair had holds what it held before.
pub proof fn lemma_put_all_lookup(t: Seq<Entry>, entries: Seq<Entry>, key: Seq<char>)
    ensures
        lookup(put_all(t, entries), key) == match last_value(entries, key) {
            Some(value) => Some(value),
            None => lookup(t, key),
        },
    decreases entries.len(),
{
    if entries.len() > 0 {
        lemma_put_all_lookup(t, entries.drop_last(), key);
        lemma_put(put_all(t, entries.drop_last()), entries.last().0, entries.last().1);
    }
}

/// Putting `a` and then `b` is putting `a + b`.
pub proof fn lemma_put_all_concat(t: Seq<Entry>, a: Seq<Entry>, b: Seq<Entry>)
    ensures
        put_all(t, a + b) == put_all(put_all(t, a), b),
    decreases b.len(),
{
    if b.len() > 0 {
        assert((a + b).drop_last() =~= a + b.drop_last());
        lemma_put_all_concat(t, a, b.drop_last());
    }
}

/// `IndexMap::new`. Trusted: the new map holds nothing.
#[verifier::external_body]
fn map_new() -> (m: IndexMap<String, String>)
    ensures
        map_entries(m) == Seq::<Entry>::empty(),
{
    IndexMap::new()
}

/// `IndexMap::len`. Trusted: it counts the pairs.
#[verifier::external_body]
fn map_len(m: &IndexMap<String, String>) -> (n: usize)
    ensures
        n == map_entries(*m).len(),
{
    m.len()
}

/// `IndexMap::insert`. Trusted: a key that the map holds keeps its place and
/// gets the new value, and the old value comes back; a new key goes last and
/// nothing comes back.
#[verifier::external_body]
fn map_insert(m: &mut IndexMap<String, String>, key: String, value: String) -> (previous: Option<
    String,
>)
    ensures
        map_entries(*final(m)) == put(map_entries(*old(m)), key@, value@),
        match previous {
            Some(v) => lookup(map_entries(*old(m)), key@) == Some(v@),
            None => lookup(map_entries(*old(m)), key@) is None,
        },
{
    m.insert(key, value)
}

/// `IndexMap::get`. Trusted: it finds the value stored for the key, and
/// `None` only where the key is not there.
#[verifier::external_body]
fn map_get<'a>(m: &'a IndexMap<String, String>, key: &str) -> (found: Option<&'a String>)
    ensures
        match found {
            Some(v) => lookup(map_entries(*m), key@) == Some(v@),
            None => lookup(map_entries(*m), key@) is None,
        },
{
    m.get(key)
}

/// `IndexMap::get_index`. Trusted: it hands out the pair at that place in the
/// map's order, and `None` only past the end.
#[verifier::external_body]
fn map_get_index<'a>(m: &'a IndexMap<String, String>, index: usize) -> (pair: Option<
    (&'a String, &'a String),
>)
    ensures
        match pair {
            Some((k, v)) => index < map_entries(*m).len() && map_entries(*m)[index as int] == (
                k@,
                v@,
            ),
            None => index >= map_entries(*m).len(),
        },
{
    m.get_index(index)
}

/// `Clone` of `IndexMap`. Trusted: the copy holds the same pairs in the same
/// order.
#[verifier::external_body]
fn map_clone(m: &IndexMap<String, String>) -> (copy: IndexMap<String, String>)
    ensures
        map_entries(copy) == map_entries(*m),
{
    m.clone()
}

/// An ordered table from string keys to string values.
pub struct FlatTable {
    map: IndexMap<String, String>,
}

impl View for FlatTable {
    type V = Seq<Entry>;

    closed spec fn view(&self) -> Seq<Entry> {
        map_entries(self.map)
    }
}

impl FlatTable {
    /// Every table holds each of its keys once.
    #[verifier::type_invariant]
    pub open spec fn well_formed(self) -> bool {
        distinct_keys(self@)
    }

    /// The empty table.
    pub fn new() -> (table: FlatTable)
        ensures
            table@ == Seq::<Entry>::empty(),
    {
        FlatTable { map: map_new() }
    }

    /// The number of rows.
    pub fn len(&self) -> (n: usize)
        ensures
            n == self@.len(),
    {
        map_len(&self.map)
    }

    /// Gives `key` the value `value`. A key that the table holds keeps its
    /// row; a new key gets a new last row.
    pub fn insert(&mut self, key: String, value: String)
        ensures
            final(self)@ == put(old(self)@, key@, value@),
    {
        proof {
            use_type_invariant(&*self);
            lemma_put(self@, key@, value@);
        }
        // The map leaves the table while it changes, so that the table holds
        // distinct keys at every moment.
        let mut map = map_new();
        core::mem::swap(&mut self.map, &mut map);
        map_insert(&mut map, key, value);
        self.map = map;
    }

    /// The value of `key`, or `None` where the table has no such key.
    pub fn get(&self, key: &str) -> (value: Option<&String>)
        ensures
            match value {
                Some(v) => lookup(self@, key@) == Some(v@),
                None => lookup(self@, key@) is None,
            },
    {
        map_get(&self.map, key)
    }

    /// The key and the value of row `index`, or `None` past the last row.
    pub fn get_index(&self, index: usize) -> (row: Option<(&String, &String)>)
        ensures
            match row {
                Some((k, v)) => index < self@.len() && self@[index as int] == (k@, v@),
                None => index >= self@.len(),
            },
    {
        map_get_index(&self.map, index)
    }
}

impl Clone for FlatTable {
    /// A copy with the same rows in the same order.
    fn clone(&self) -> (copy: FlatTable)
        ensures
            copy@ == self@,
    {
        proof {
            use_type_invariant(self);
        }
        FlatTable { map: map_clone(&self.map) }
    }
}

} // verus!
