//! The two tables of a viewer, the baseline taken at the start and the
//! current one, and what counts as changed between them.

use crate::flatten::flat_table;
use crate::flatten::flatten;
use crate::json::parse_value;
use crate::json::parsed_json;
use crate::table::distinct_keys;
use crate::table::index_of_key;
use crate::table::lemma_index_of_key;
use crate::table::lookup;
use crate::table::Entry;
use crate::table::FlatTable;
use vstd::prelude::*;

verus! {

/// Why a document could not be loaded.
#[derive(Structural, PartialEq, Eq, Clone, Copy, Debug)]
pub enum LoadError {
    /// The file was missing or could not be read.
    Read,
    /// The contents were not valid JSON.
    Parse,
}

/// What loading makes of a file's contents, `None` standing for a file that
/// could not be read.
pub open spec fn load_outcome(contents: Option<Seq<char>>) -> Result<Seq<Entry>, LoadError> {
    match contents {
        None => Err(LoadError::Read),
        Some(text) => match parsed_json(text) {
            None => Err(LoadError::Parse),
            Some(tree) => Ok(flat_table(tree)),
        },
    }
}

/// The characters of the contents, where there are any.
pub open spec fn contents_view(contents: Option<&str>) -> Option<Seq<char>> {
    match contents {
        None => None,
        Some(text) => Some(text@),
    }
}

/// Loads the flat table of a document from the contents of its file. The
/// caller reads the file and passes `None` where that failed.
///
/// Fails with `LoadError::Read` exactly where there are no contents, and with
/// `LoadError::Parse` exactly where the contents are not valid JSON.
pub fn load_flat(contents: Option<&str>) -> (loaded: Result<FlatTable, LoadError>)
    ensures
        match load_outcome(contents_view(contents)) {
            Ok(rows) => loaded matches Ok(table) && table@ == rows,
            Err(e) => loaded matches Err(reported) && reported == e,
        },
{
    match contents {
        None => Err(LoadError::Read),
        Some(text) => match parse_value(text) {
            Ok(value) => Ok(flatten(&value)),
            Err(_) => Err(LoadError::Parse),
        },
    }
}

/// Whether `key` counts as changed: the current table holds it, and the
/// baseline holds no such key or another value for it. A key that only the
/// baseline holds is not changed.
pub open spec fn changed(baseline: Seq<Entry>, current: Seq<Entry>, key: Seq<char>) -> bool {
    lookup(current, key) is Some && lookup(baseline, key) != lookup(current, key)
}

/// Whether a row of the current table differs from the baseline.
pub open spec fn row_changed(baseline: Seq<Entry>, row: Entry) -> bool {
    lookup(baseline, row.0) != Some(row.1)
}

/// The changed keys, in the order of the current table.
pub open spec fn changed_keys(baseline: Seq<Entry>, current: Seq<Entry>) -> Seq<Seq<char>> {
    current.filter_map(
        |row: Entry|
            if row_changed(baseline, row) {
                Some(row.0)
            } else {
                None
            },
    )
}

/// In a table of distinct keys, a key's value is the value of its row.
pub proof fn lemma_lookup_row(t: Seq<Entry>, i: int)
    requires
        distinct_keys(t),
        0 <= i < t.len(),
    ensures
        index_of_key(t, t[i].0) == i,
        lookup(t, t[i].0) == Some(t[i].1),
{
    lemma_index_of_key(t, t[i].0);
}

/// A row of the current table differs from the baseline exactly where its key
/// is changed.
pub proof fn lemma_row_changed(baseline: Seq<Entry>, current: Seq<Entry>, i: int)
    requires
        distinct_keys(current),
        0 <= i < current.len(),
    ensures
        row_changed(baseline, current[i]) <==> changed(baseline, current, current[i].0),
{
    lemma_lookup_row(current, i);
}

/// A key that the current table holds and the baseline does not is changed.
pub proof fn lemma_new_key_is_changed(baseline: Seq<Entry>, current: Seq<Entry>, key: Seq<char>)
    requires
        lookup(baseline, key) is None,
        lookup(current, key) is Some,
    ensures
        changed(baseline, current, key),
{
}

/// A key that both tables hold with the same value is not changed.
pub proof fn lemma_equal_key_is_unchanged(
    baseline: Seq<Entry>,
    current: Seq<Entry>,
    key: Seq<char>,
)
    requires
        lookup(baseline, key) is Some,
        lookup(baseline, key) == lookup(current, key),
    ensures
        !changed(baseline, current, key),
{
}

/// A key that the current table no longer holds is not changed, whatever the
/// baseline held for it.
pub proof fn lemma_removed_key_is_unchanged(
    baseline: Seq<Entry>,
    current: Seq<Entry>,
    key: Seq<char>,
)
    requires
        lookup(current, key) is None,
    ensures
        !changed(baseline, current, key),
{
}

/// Nothing is changed between a table and itself.
pub proof fn lemma_same_table_unchanged(table: Seq<Entry>, key: Seq<char>)
    ensures
        !changed(table, table, key),
{
}

/// The changed keys are exactly the keys that are changed.
pub proof fn lemma_changed_keys_are_changed(
    baseline: Seq<Entry>,
    current: Seq<Entry>,
    key: Seq<char>,
)
    requires
        distinct_keys(current),
    ensures
        changed_keys(baseline, current).contains(key) <==> changed(baseline, current, key),
    decreases current.len(),
{
    if current.len() > 0 {
        let rest = current.drop_last();
        let last = current.last();
        let there = changed_keys(baseline, rest);
        let here = changed_keys(baseline, current);
        lemma_changed_keys_are_changed(baseline, rest, key);
        lemma_index_of_key(current, key);
        lemma_index_of_key(rest, key);
        if key == last.0 {
            // The last row is the only one with this key.
            lemma_lookup_row(current, current.len() - 1);
            assert(index_of_key(rest, key) == rest.len());
            if row_changed(baseline, last) {
                assert(here.last() == key);
            }
        } else {
            // The row of the key, if there is one, is a row of `rest`.
            if index_of_key(current, key) < current.len() {
                assert(rest[index_of_key(current, key)].0 == key);
            }
            if there.contains(key) {
                let w = choose|w: int| 0 <= w < there.len() && there[w] == key;
                assert(here[w] == key);
            }
        }
    }
}

/// The two tables of a viewer as mathematics sees them.
pub struct SnapshotsView {
    pub baseline: Seq<Entry>,
    pub current: Seq<Entry>,
}

/// The baseline, taken once, and the current table, replaced at each
/// successful refresh.
pub struct Snapshots {
    baseline: FlatTable,
    current: FlatTable,
}

impl View for Snapshots {
    type V = SnapshotsView;

    closed spec fn view(&self) -> SnapshotsView {
        SnapshotsView { baseline: self.baseline@, current: self.current@ }
    }
}

impl Snapshots {
    /// Takes the baseline from the contents of the file at startup; the
    /// current table starts as a copy of it. Fails as [`load_flat`] does.
    pub fn capture_baseline(contents: Option<&str>) -> (captured: Result<Snapshots, LoadError>)
        ensures
            match load_outcome(contents_view(contents)) {
                Ok(rows) => captured matches Ok(store) && store@.baseline == rows
                    && store@.current == rows,
                Err(e) => captured matches Err(reported) && reported == e,
            },
    {
        match load_flat(contents) {
            Ok(baseline) => {
                let current = baseline.clone();
                Ok(Snapshots { baseline, current })
            },
            Err(e) => Err(e),
        }
    }

    /// Loads the document again. On success the loaded table replaces the
    /// current one as a whole; on failure the current table stays as it was
    /// and the error is returned. The baseline never changes.
    pub fn refresh(&mut self, contents: Option<&str>) -> (outcome: Result<(), LoadError>)
        ensures
            final(self)@.baseline == old(self)@.baseline,
            match load_outcome(contents_view(contents)) {
                Ok(rows) => outcome is Ok && final(self)@.current == rows,
                Err(e) => outcome == Err::<(), LoadError>(e) && final(self)@.current == old(self)@.current,
            },
    {
        match load_flat(contents) {
            Ok(table) => {
                self.current = table;
                Ok(())
            },
            Err(e) => Err(e),
        }
    }

    /// The baseline table.
    pub fn baseline(&self) -> (table: &FlatTable)
        ensures
            table@ == self@.baseline,
    {
        &self.baseline
    }

    /// The current table.
    pub fn current(&self) -> (table: &FlatTable)
        ensures
            table@ == self@.current,
    {
        &self.current
    }

    /// The number of rows of the current table.
    pub fn row_count(&self) -> (n: usize)
        ensures
            n == self@.current.len(),
    {
        self.current.len()
    }

    /// Whether `key` is changed: the current table holds it, and the baseline
    /// holds no such key or another value for it.
    pub fn is_changed(&self, key: &str) -> (b: bool)
        ensures
            b == changed(self@.baseline, self@.current, key@),
    {
        match self.current.get(key) {
            None => false,
            Some(now) => match self.baseline.get(key) {
                None => true,
                Some(before) => !(*before == *now),
            },
        }
    }

    /// The keys that are changed, in the order of the current table.
    pub fn changed_keys(&self) -> (keys: Vec<String>)
        ensures
            keys.deep_view() == changed_keys(self@.baseline, self@.current),
            forall|key: Seq<char>|
                keys.deep_view().contains(key) <==> changed(self@.baseline, self@.current, key),
    {
        let ghost pick = |row: Entry|
            if row_changed(self@.baseline, row) {
                Some(row.0)
            } else {
                None
            };
        let mut keys: Vec<String> = Vec::new();
        let n = self.current.len();
        let mut i: usize = 0;
        while i < n
            invariant
                i <= n,
                n == self@.current.len(),
                pick == |row: Entry|
                    if row_changed(self@.baseline, row) {
                        Some(row.0)
                    } else {
                        None
                    },
                keys.deep_view() == self@.current.take(i as int).filter_map(pick),
            decreases n - i,
        {
            let ghost before = keys.deep_view();
            proof {
                self@.current.lemma_filter_map_take_succ(pick, i as int);
            }
            match self.current.get_index(i) {
                Some((key, now)) => {
                    let same = match self.baseline.get(key.as_str()) {
                        None => false,
                        Some(was) => *was == *now,
                    };
                    if !same {
                        keys.push(key.clone());
                    }
                },
                None => {},
            }
            i += 1;
        }
        proof {
            assert(self@.current.take(n as int) =~= self@.current);
            use_type_invariant(&self.current);
            assert forall|key: Seq<char>|
                keys.deep_view().contains(key) <==> changed(
                    self@.baseline,
                    self@.current,
                    key,
                ) by {
                lemma_changed_keys_are_changed(self@.baseline, self@.current, key);
            }
        }
        keys
    }
}

} // verus!
