use jsonwatch::flatten::flatten;
use jsonwatch::table::FlatTable;
use serde_json::Value;

fn parse(text: &str) -> Value {
    serde_json::from_str(text).expect("valid JSON")
}

fn rows(table: &FlatTable) -> Vec<(String, String)> {
    let mut out = Vec::new();
    let mut i = 0;
    while let Some((k, v)) = table.get_index(i) {
        out.push((k.clone(), v.clone()));
        i += 1;
    }
    assert_eq!(out.len(), table.len());
    out
}

fn pair(k: &str, v: &str) -> (String, String) {
    (k.to_string(), v.to_string())
}

#[test]
fn flatten_array_in_object() {
    let table = flatten(&parse(r#"{"a":[1,2]}"#));
    assert_eq!(rows(&table), vec![pair("a \u{2192} 0", "1"), pair("a \u{2192} 1", "2")]);
}

#[test]
fn flatten_foo_example() {
    let table = flatten(&parse(r#"{"foo": [1, 2]}"#));
    assert_eq!(table.len(), 2);
    assert_eq!(table.get("foo \u{2192} 0"), Some(&"1".to_string()));
    assert_eq!(table.get("foo \u{2192} 1"), Some(&"2".to_string()));
    assert_eq!(table.get("foo"), None);
}

#[test]
fn flatten_bare_string() {
    let table = flatten(&Value::String("hello".to_string()));
    assert_eq!(rows(&table), vec![pair("", "hello")]);
}

#[test]
fn flatten_bare_scalars() {
    assert_eq!(rows(&flatten(&parse("null"))), vec![pair("", "null")]);
    assert_eq!(rows(&flatten(&parse("true"))), vec![pair("", "true")]);
    assert_eq!(rows(&flatten(&parse("false"))), vec![pair("", "false")]);
    assert_eq!(rows(&flatten(&parse("42"))), vec![pair("", "42")]);
    assert_eq!(rows(&flatten(&parse("3.14"))), vec![pair("", "3.14")]);
    assert_eq!(rows(&flatten(&parse("-7"))), vec![pair("", "-7")]);
}

#[test]
fn flatten_twice_gives_the_same_table() {
    let value = parse(r#"{"b":{"y":[true,null,{"z":"s"}],"x":1.5},"a":"t"}"#);
    let first = flatten(&value);
    let second = flatten(&value);
    assert_eq!(rows(&first), rows(&second));
    let again = flatten(&parse(r#"{"b":{"y":[true,null,{"z":"s"}],"x":1.5},"a":"t"}"#));
    assert_eq!(rows(&first), rows(&again));
}

#[test]
fn flatten_keeps_the_order_of_the_document() {
    let table = flatten(&parse(r#"{"zeta":1,"alpha":{"m":2,"b":3},"mid":[4]}"#));
    assert_eq!(
        rows(&table),
        vec![
            pair("zeta", "1"),
            pair("alpha \u{2192} m", "2"),
            pair("alpha \u{2192} b", "3"),
            pair("mid \u{2192} 0", "4"),
        ]
    );
}

#[test]
fn flatten_strips_the_quotes_of_a_string_only() {
    let table = flatten(&parse(r#"{"s":"say \"hi\"","n":null,"t":true,"f":false,"i":42,"x":3.14}"#));
    assert_eq!(
        rows(&table),
        vec![
            pair("s", "say \"hi\""),
            pair("n", "null"),
            pair("t", "true"),
            pair("f", "false"),
            pair("i", "42"),
            pair("x", "3.14"),
        ]
    );
}

#[test]
fn flatten_goes_through_nested_arrays() {
    let table = flatten(&parse(r#"[[1,[2]],"x"]"#));
    assert_eq!(
        rows(&table),
        vec![
            pair("0 \u{2192} 0", "1"),
            pair("0 \u{2192} 1 \u{2192} 0", "2"),
            pair("1", "x"),
        ]
    );
}

#[test]
fn flatten_writes_indices_in_decimal() {
    let table = flatten(&parse("[0,1,2,3,4,5,6,7,8,9,10,11]"));
    assert_eq!(table.len(), 12);
    assert_eq!(table.get("9"), Some(&"9".to_string()));
    assert_eq!(table.get("10"), Some(&"10".to_string()));
    assert_eq!(table.get("11"), Some(&"11".to_string()));
    assert_eq!(table.get_index(10), Some((&"10".to_string(), &"10".to_string())));
}

#[test]
fn flatten_of_empty_containers_has_no_rows() {
    assert_eq!(flatten(&parse("{}")).len(), 0);
    assert_eq!(flatten(&parse("[]")).len(), 0);
    assert_eq!(rows(&flatten(&parse(r#"{"a":{},"b":[],"c":1}"#))), vec![pair("c", "1")]);
}

#[test]
fn flatten_keeps_an_empty_step_in_the_key() {
    assert_eq!(rows(&flatten(&parse(r#"{"a":{"":1}}"#))), vec![pair("a \u{2192} ", "1")]);
    assert_eq!(rows(&flatten(&parse(r#"{"":1}"#))), vec![pair("", "1")]);
    assert_eq!(rows(&flatten(&parse(r#"{"":{"x":1}}"#))), vec![pair(" \u{2192} x", "1")]);
}

#[test]
fn flatten_gives_two_leaves_of_one_key_one_row() {
    let table = flatten(&parse(r#"{"a → b":1,"c":0,"a":{"b":2}}"#));
    assert_eq!(rows(&table), vec![pair("a \u{2192} b", "2"), pair("c", "0")]);
}

#[test]
fn flatten_never_has_a_container_as_a_value() {
    let table = flatten(&parse(r#"{"a":{"b":[{"c":"d"}]}}"#));
    assert_eq!(rows(&table), vec![pair("a \u{2192} b \u{2192} 0 \u{2192} c", "d")]);
}

#[test]
fn table_insert_keeps_the_place_of_a_key() {
    let mut table = FlatTable::new();
    assert_eq!(table.len(), 0);
    table.insert("x".to_string(), "1".to_string());
    table.insert("y".to_string(), "2".to_string());
    table.insert("x".to_string(), "3".to_string());
    assert_eq!(rows(&table), vec![pair("x", "3"), pair("y", "2")]);
    assert_eq!(table.get("y"), Some(&"2".to_string()));
    assert_eq!(table.get("z"), None);
    assert_eq!(table.get_index(2), None);
    let copy = table.clone();
    assert_eq!(rows(&copy), rows(&table));
}
