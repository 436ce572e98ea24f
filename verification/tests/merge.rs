use f1_term::json::{object_from, Json, JsonNumber};
use f1_term::merge_patch::{merge_patch, patch_in_range};

fn to_json(v: &serde_json::Value) -> Json {
    match v {
        serde_json::Value::Null => Json::Null,
        serde_json::Value::Bool(b) => Json::Bool(*b),
        serde_json::Value::Number(n) => {
            if let Some(u) = n.as_u64() {
                Json::Number(JsonNumber::PosInt(u))
            } else if let Some(i) = n.as_i64() {
                Json::Number(JsonNumber::NegInt(i))
            } else {
                Json::Number(JsonNumber::Float(n.as_f64().unwrap().to_bits()))
            }
        }
        serde_json::Value::String(s) => Json::Str(s.clone()),
        serde_json::Value::Array(a) => Json::Array(a.iter().map(to_json).collect()),
        serde_json::Value::Object(m) => {
            object_from(m.iter().map(|(k, v)| (k.clone(), to_json(v))).collect())
        }
    }
}

fn parse(s: &str) -> Json {
    to_json(&serde_json::from_str(s).unwrap())
}

#[test]
fn test_merge_patch_basic() {
    let mut a = parse(
        r#"{
            "existing": "old",
            "nested": { "child": "value", "child2": "value2"},
            "array": [1, 2],
            "to_remove": "bye"
        }"#,
    );

    let b = parse(
        r#"{
            "existing": "new",
            "new_key": 42,
            "nested": { "child": "new", "child3": "value3" },
            "array": [3, 4],
            "to_remove": null
        }"#,
    );

    merge_patch(&mut a, &b);

    assert_eq!(
        a,
        parse(
            r#"{
                "existing": "new",
                "new_key": 42,
                "nested": { "child": "new", "child2": "value2" , "child3": "value3"},
                "array": [3, 4]
            }"#
        )
    );
}

#[test]
fn test_merge_patch_array_numeric_keys() {
    let mut a = parse(r#"[{"Value": "1"}, {"Value": "2"}]"#);

    let b = parse(r#"{"1": {"Value": "3"}, "2": {"Value": "4"}}"#);

    merge_patch(&mut a, &b);

    assert_eq!(a, parse(r#"[{"Value": "1"}, {"Value": "3"}, {"Value": "4"}]"#));
}

#[test]
fn merge_non_object_patch_replaces() {
    let mut a = parse(r#"{"a": 1}"#);
    merge_patch(&mut a, &parse(r#"[1, 2]"#));
    assert_eq!(a, parse(r#"[1, 2]"#));

    let mut s = parse(r#""text""#);
    merge_patch(&mut s, &parse(r#"{"x": null, "y": 2}"#));
    assert_eq!(s, parse(r#"{"y": 2}"#));
}

#[test]
fn merge_empty_patch_keeps_object() {
    let mut a = parse(r#"{"a": 1, "b": {"c": [1]}}"#);
    let before = parse(r#"{"a": 1, "b": {"c": [1]}}"#);
    merge_patch(&mut a, &parse("{}"));
    assert_eq!(a, before);
}

#[test]
fn merge_index_patch_pads_with_null() {
    let mut a = parse(r#"[1]"#);
    merge_patch(&mut a, &parse(r#"{"3": 7}"#));
    assert_eq!(a, parse(r#"[1, null, null, 7]"#));

    let mut b = parse(r#"[1]"#);
    merge_patch(&mut b, &parse(r#"{"0": 5, "x": 6}"#));
    assert_eq!(b, parse(r#"{"0": 5, "x": 6}"#));
}

#[test]
fn merge_null_member_removes_only_that_member() {
    let mut a = parse(r#"{"a": 1, "b": 2, "c": 3}"#);
    merge_patch(&mut a, &parse(r#"{"b": null, "d": null}"#));
    assert_eq!(a, parse(r#"{"a": 1, "c": 3}"#));
}

#[test]
fn patch_range_check() {
    assert!(patch_in_range(&parse(r#"{"1": {"2": 3}}"#)));
    assert!(!patch_in_range(&parse(r#"{"a": {"18446744073709551615": 3}}"#)));
    assert!(patch_in_range(&parse(r#"[{"18446744073709551615": 3}]"#)));
}

#[test]
fn merge_new_member_drops_its_nulls() {
    let mut a = parse("{}");
    merge_patch(&mut a, &parse(r#"{"k": {"x": null, "y": 1}}"#));
    assert_eq!(a, parse(r#"{"k": {"y": 1}}"#));
}

#[test]
fn merge_object_patch_into_non_object() {
    let mut a = parse("[1, 2]");
    merge_patch(&mut a, &parse(r#"{"a": null, "b": {"c": null, "d": [null]}}"#));
    assert_eq!(a, parse(r#"{"b": {"d": [null]}}"#));
    let mut s = parse("\"text\"");
    merge_patch(&mut s, &parse(r#"{"x": 1}"#));
    assert_eq!(s, parse(r#"{"x": 1}"#));
    let mut items = parse("[0]");
    merge_patch(&mut items, &parse(r#"{"2": {"v": null, "w": 3}}"#));
    assert_eq!(items, parse(r#"[0, null, {"w": 3}]"#));
}
