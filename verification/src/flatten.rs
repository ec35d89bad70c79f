//! Flattening: from a JSON value to the table of its leaves, each under the
//! path that leads to it.

use crate::json::display_text;
use crate::json::json_members;
use crate::json::json_tree;
use crate::json::json_trees;
use crate::json::members_of;
use crate::json::scalar_text;
use crate::json::Json;
use crate::table::distinct_keys;
use crate::table::last_value;
use crate::table::lemma_put_all_concat;
use crate::table::lemma_put_all_distinct;
use crate::table::lemma_put_all_lookup;
use crate::table::lookup;
use crate::table::put_all;
use crate::table::Entry;
use crate::table::FlatTable;
use serde_json::Value;
use vstd::prelude::*;
use vstd::string::StrSliceExecFns;
use vstd::string::StringExecFns;

verus! {

/// What stands between two steps of a path in a key: a space, a rightwards
/// arrow, a space.
pub open spec fn separator() -> Seq<char> {
    seq![' ', '\u{2192}', ' ']
}

/// The character of the decimal digit `d`.
pub open spec fn digit(d: nat) -> char {
    ('0' as nat + d) as char
}

/// `n` in decimal digits, without leading zeros.
pub open spec fn decimal(n: nat) -> Seq<char>
    decreases n,
{
    if n < 10 {
        seq![digit(n)]
    } else {
        decimal(n / 10).push(digit(n % 10))
    }
}

/// The key of the leaf at the end of `path`: the steps of the path, joined by
/// the separator. The empty path has the empty key.
pub open spec fn path_key(path: Seq<Seq<char>>) -> Seq<char>
    decreases path.len(),
{
    if path.len() == 0 {
        Seq::empty()
    } else if path.len() == 1 {
        path[0]
    } else {
        path_key(path.drop_last()) + separator() + path.last()
    }
}

/// The prefix that a descent along `path` has built: each step followed by the
/// separator.
pub open spec fn path_prefix(path: Seq<Seq<char>>) -> Seq<char>
    decreases path.len(),
{
    if path.len() == 0 {
        Seq::empty()
    } else {
        path_prefix(path.drop_last()) + path.last() + separator()
    }
}

/// The text of a leaf: a string's content as it is, and the JSON text of
/// `null`, of a boolean and of a number.
pub open spec fn leaf_text(tree: Json) -> Seq<char> {
    match tree {
        Json::Str(content) => content,
        _ => scalar_text(tree),
    }
}

/// The leaves of `tree`, depth first, each with its key; `path` leads to
/// `tree` from the root of the document.
pub open spec fn leaves(tree: Json, path: Seq<Seq<char>>) -> Seq<Entry>
    decreases tree, 0nat,
{
    match tree {
        Json::Array(items) => array_leaves(items, path, items.len()),
        Json::Object(members) => object_leaves(members, path, members.len()),
        _ => seq![(path_key(path), leaf_text(tree))],
    }
}

/// The leaves of the first `count` elements of an array; an element's step in
/// the path is its index.
pub open spec fn array_leaves(items: Seq<Json>, path: Seq<Seq<char>>, count: nat) -> Seq<Entry>
    decreases items, count,
{
    if count == 0 || count > items.len() {
        Seq::empty()
    } else {
        array_leaves(items, path, (count - 1) as nat) + leaves(
            items[count - 1],
            path.push(decimal((count - 1) as nat)),
        )
    }
}

/// The leaves of the first `count` members of an object; a member's step in
/// the path is its name.
pub open spec fn object_leaves(
    members: Seq<(Seq<char>, Json)>,
    path: Seq<Seq<char>>,
    count: nat,
) -> Seq<Entry>
    decreases members, count,
{
    if count == 0 || count > members.len() {
        Seq::empty()
    } else {
        object_leaves(members, path, (count - 1) as nat) + leaves(
            members[count - 1].1,
            path.push(members[count - 1].0),
        )
    }
}

/// The table of a document: its leaves, put into an empty table one after
/// another.
pub open spec fn flat_table(tree: Json) -> Seq<Entry> {
    put_all(Seq::empty(), leaves(tree, Seq::empty()))
}

/// The table of a document holds each key once. Under a key it holds the
/// text of the last leaf that has this key, and it holds no key that no leaf
/// has.
pub proof fn lemma_flat_table_holds_the_leaves(tree: Json, key: Seq<char>)
    ensures
        distinct_keys(flat_table(tree)),
        lookup(flat_table(tree), key) == last_value(leaves(tree, Seq::empty()), key),
{
    lemma_put_all_distinct(Seq::empty(), leaves(tree, Seq::empty()));
    lemma_put_all_lookup(Seq::empty(), leaves(tree, Seq::empty()), key);
}

/// A document that is a single leaf has one row: the empty key, and the
/// leaf's text.
pub proof fn lemma_flat_table_of_leaf(tree: Json)
    requires
        !(tree is Array),
        !(tree is Object),
    ensures
        flat_table(tree) == seq![(Seq::<char>::empty(), leaf_text(tree))],
{
    let only = seq![(Seq::<char>::empty(), leaf_text(tree))];
    assert(put_all(Seq::empty(), only.drop_last()) == Seq::<Entry>::empty());
}

/// Flattening is a function of the document: two values that hold the same
/// tree have the same table, row for row.
pub proof fn lemma_flatten_is_deterministic(first: Value, second: Value)
    requires
        json_tree(first) == json_tree(second),
    ensures
        flat_table(json_tree(first)) == flat_table(json_tree(second)),
{
}

/// What a descent has built is the key of its path and one separator more.
proof fn lemma_prefix_ends_key(path: Seq<Seq<char>>)
    requires
        path.len() > 0,
    ensures
        path_prefix(path) == path_key(path) + separator(),
    decreases path.len(),
{
    if path.len() == 1 {
        assert(path_prefix(path.drop_last()) =~= Seq::<char>::empty());
    } else {
        lemma_prefix_ends_key(path.drop_last());
    }
}

/// The character of the digit `d`.
fn digit_char(d: u8) -> (c: char)
    requires
        d < 10,
    ensures
        c == digit(d as nat),
{
    (48u8 + d) as char
}

/// Appends `n` in decimal digits.
fn push_decimal(out: &mut String, n: usize)
    ensures
        final(out)@ == old(out)@ + decimal(n as nat),
    decreases n,
{
    if n >= 10 {
        push_decimal(out, n / 10);
    }
    out.push(digit_char((n % 10) as u8));
}

/// `stem` with the separator after it.
fn with_separator(stem: String) -> (prefix: String)
    ensures
        prefix@ == stem@ + separator(),
{
    proof {
        reveal_strlit(" \u{2192} ");
    }
    let mut prefix = stem;
    prefix.append(" \u{2192} ");
    prefix
}

/// The key of the leaf that a descent with `prefix` has reached: the prefix
/// without its last separator.
fn leaf_key(prefix: &str, Ghost(path): Ghost<Seq<Seq<char>>>) -> (key: String)
    requires
        prefix@ == path_prefix(path),
    ensures
        key@ == path_key(path),
{
    let n = prefix.unicode_len();
    proof {
        if path.len() > 0 {
            lemma_prefix_ends_key(path);
        }
    }
    if n < 3 {
        String::new()
    } else {
        let key = prefix.substring_char(0, n - 3);
        key.to_owned()
    }
}

/// Puts the leaves of `value` into `out`; `prefix` is what the descent to
/// `value` has built.
fn flatten_into(
    value: &Value,
    prefix: &str,
    Ghost(path): Ghost<Seq<Seq<char>>>,
    out: &mut FlatTable,
)
    requires
        prefix@ == path_prefix(path),
    ensures
        final(out)@ == put_all(old(out)@, leaves(json_tree(*value), path)),
    decreases json_tree(*value),
{
    let ghost tree = json_tree(*value);
    match value.as_array() {
        Some(items) => {
            let ghost trees = json_trees(items@);
            let mut i: usize = 0;
            while i < items.len()
                invariant
                    i <= items.len(),
                    tree == json_tree(*value),
                    tree == Json::Array(trees),
                    trees == json_trees(items@),
                    prefix@ == path_prefix(path),
                    out@ == put_all(old(out)@, array_leaves(trees, path, i as nat)),
                decreases items.len() - i,
            {
                let mut child = prefix.to_owned();
                push_decimal(&mut child, i);
                let child = with_separator(child);
                let ghost below = path.push(decimal(i as nat));
                proof {
                    assert(below.drop_last() =~= path);
                    lemma_put_all_concat(
                        old(out)@,
                        array_leaves(trees, path, i as nat),
                        leaves(trees[i as int], below),
                    );
                    assert(decreases_to!(tree => tree->Array_0));
                }
                flatten_into(&items[i], child.as_str(), Ghost(below), out);
                i += 1;
            }
        },
        None => match value.as_object() {
            Some(object) => {
                let members = members_of(object);
                let ghost named = json_members(members@);
                let mut i: usize = 0;
                while i < members.len()
                    invariant
                        i <= members.len(),
                        tree == json_tree(*value),
                        tree == Json::Object(named),
                        named == json_members(members@),
                        prefix@ == path_prefix(path),
                        out@ == put_all(old(out)@, object_leaves(named, path, i as nat)),
                    decreases members.len() - i,
                {
                    let (name, member) = members[i];
                    let mut child = prefix.to_owned();
                    child.append(name.as_str());
                    let child = with_separator(child);
                    let ghost below = path.push(name@);
                    proof {
                        assert(below.drop_last() =~= path);
                        lemma_put_all_concat(
                            old(out)@,
                            object_leaves(named, path, i as nat),
                            leaves(named[i as int].1, below),
                        );
                        assert(decreases_to!(tree => tree->Object_0));
                    }
                    flatten_into(member, child.as_str(), Ghost(below), out);
                    i += 1;
                }
            },
            None => {
                let key = leaf_key(prefix, Ghost(path));
                let text = match value.as_str() {
                    Some(content) => content.to_owned(),
                    None => display_text(value),
                };
                proof {
                    let leaf = seq![(key@, text@)];
                    assert(leaf.drop_last() =~= Seq::<Entry>::empty());
                    assert(put_all(out@, Seq::<Entry>::empty()) == out@);
                }
                out.insert(key, text);
            },
        },
    }
}

/// Flattens a JSON value into the table of its leaves.
///
/// The rows stand in the order of a depth-first walk: the members of an
/// object in the object's order, the elements of an array by index. A leaf's
/// key is the path to it, the steps joined by `" \u{2192} "`; a value that is
/// itself a leaf has the empty key. Where two leaves have one key, the first
/// keeps the row and the last gives the value.
///
/// The table depends on the value's tree alone: two calls on one value give
/// the same rows in the same order.
pub fn flatten(value: &Value) -> (table: FlatTable)
    ensures
        table@ == flat_table(json_tree(*value)),
{
    let mut table = FlatTable::new();
    proof {
        reveal_strlit("");
        assert(""@ =~= path_prefix(Seq::empty()));
    }
    flatten_into(value, "", Ghost(Seq::empty()), &mut table);
    table
}

} // verus!
