//! JSON values as `serde_json` holds them, and the tree that the rest of the
//! library reasons about.

use serde_json::Value;
use vstd::prelude::*;

verus! {

/// `serde_json::Value`. Nothing of its inside is known here; what it holds
/// is read through the functions below.
#[verifier::external_type_specification]
#[verifier::external_body]
pub struct ExValue(serde_json::Value);

/// `serde_json::Error`, carried from the parser to where it becomes an
/// error of this library.
#[verifier::external_type_specification]
#[verifier::external_body]
pub struct ExError(serde_json::Error);

/// `serde_json::Map`, the map of a JSON object.
#[verifier::external_type_specification]
#[verifier::external_body]
#[verifier::reject_recursive_types(K)]
#[verifier::reject_recursive_types(V)]
pub struct ExMap<K, V>(serde_json::Map<K, V>);

/// A JSON document as a tree.
///
/// A number is held as the text that `serde_json` prints for it, which is all
/// that this library reads of a number. An object is the sequence of its
/// members in the order of the `serde_json` map.
pub enum Json {
    Null,
    Bool(bool),
    Number(Seq<char>),
    Str(Seq<char>),
    Array(Seq<Json>),
    Object(Seq<(Seq<char>, Json)>),
}

/// The tree that a `serde_json::Value` holds.
pub uninterp spec fn json_tree(value: Value) -> Json;

/// What `serde_json::from_str` makes of a text: the tree of the value it
/// parses, or `None` where it reports an error.
pub uninterp spec fn parsed_json(text: Seq<char>) -> Option<Json>;

/// The members that the map of a JSON object holds, in the map's own order:
/// each key's characters and the tree of its value.
pub uninterp spec fn map_members(object: serde_json::Map<String, Value>) -> Seq<(Seq<char>, Json)>;

/// The trees of a sequence of values, one by one.
pub open spec fn json_trees(values: Seq<Value>) -> Seq<Json> {
    Seq::new(values.len(), |i: int| json_tree(values[i]))
}

/// The members of an object, each a key's characters and a value's tree.
pub open spec fn json_members(members: Seq<(&String, &Value)>) -> Seq<(Seq<char>, Json)> {
    Seq::new(members.len(), |i: int| (members[i].0@, json_tree(*members[i].1)))
}

/// `Value::as_array`. Trusted: for an array it hands out the vector of the
/// elements, and `None` for every other kind of value.
pub assume_specification<'a>[ Value::as_array ](value: &'a Value) -> (items: Option<
    &'a Vec<Value>,
>)
    ensures
        match items {
            Some(v) => json_tree(*value) == Json::Array(json_trees(v@)),
            None => !(json_tree(*value) is Array),
        },
;

/// `Value::as_str`. Trusted: for a string it hands out the content, quotes
/// and escapes resolved, and `None` for every other kind of value.
pub assume_specification<'a>[ Value::as_str ](value: &'a Value) -> (content: Option<&'a str>)
    ensures
        match content {
            Some(s) => json_tree(*value) == Json::Str(s@),
            None => !(json_tree(*value) is Str),
        },
;

/// `Value::as_object`. Trusted: for an object it hands out the map of the
/// members, and `None` for every other kind of value.
pub assume_specification<'a>[ Value::as_object ](value: &'a Value) -> (object: Option<
    &'a serde_json::Map<String, Value>,
>)
    ensures
        match object {
            Some(m) => json_tree(*value) == Json::Object(map_members(*m)),
            None => !(json_tree(*value) is Object),
        },
;

/// `Map::iter`, collected into a vector. Trusted: the iterator walks the
/// members in the map's order and hands out each key with its value.
#[verifier::external_body]
pub(crate) fn members_of<'a>(object: &'a serde_json::Map<String, Value>) -> (members: Vec<
    (&'a String, &'a Value),
>)
    ensures
        json_members(members@) == map_members(*object),
{
    object.iter().collect()
}

/// The text of a value that is neither a string nor a container.
pub open spec fn scalar_text(tree: Json) -> Seq<char> {
    match tree {
        Json::Null => seq!['n', 'u', 'l', 'l'],
        Json::Bool(true) => seq!['t', 'r', 'u', 'e'],
        Json::Bool(false) => seq!['f', 'a', 'l', 's', 'e'],
        Json::Number(text) => text,
        _ => Seq::empty(),
    }
}

/// `Display` of `Value`, through `to_string`. Trusted: `null` and the two
/// booleans are printed as JSON writes them, and a number as the text that
/// the tree holds for it. Nothing is said of strings and containers.
#[verifier::external_body]
pub(crate) fn display_text(value: &Value) -> (text: String)
    ensures
        json_tree(*value) is Null || json_tree(*value) is Bool || json_tree(*value) is Number
            ==> text@ == scalar_text(json_tree(*value)),
{
    value.to_string()
}

/// `serde_json::from_str` at the type `Value`. Trusted: what it returns
/// depends on the text alone, so it is given the name [`parsed_json`].
#[verifier::external_body]
pub(crate) fn parse_value(text: &str) -> (parsed: Result<Value, serde_json::Error>)
    ensures
        match parsed {
            Ok(value) => parsed_json(text@) == Some(json_tree(value)),
            Err(_) => parsed_json(text@) is None,
        },
{
    serde_json::from_str(text)
}

} // verus!
