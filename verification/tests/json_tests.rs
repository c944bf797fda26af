use tantivy_ex::json::{from_json, normalize, parse_json};
use tantivy_ex::value::DynValue;

fn text(s: &str) -> DynValue {
    DynValue::Str(s.to_string())
}

#[test]
fn reads_every_kind_of_value() {
    assert_eq!(parse_json("null"), Some(DynValue::Null));
    assert_eq!(parse_json("true"), Some(DynValue::Bool(true)));
    assert_eq!(parse_json("\"a\\nb\""), Some(text("a\nb")));
    assert_eq!(parse_json("[]"), Some(DynValue::List(vec![])));
    assert_eq!(parse_json("{}"), Some(DynValue::Object(vec![])));
    assert_eq!(
        parse_json(r#" [1, "two", [3], {"four": null}] "#),
        Some(DynValue::List(vec![
            DynValue::Unsigned(1),
            text("two"),
            DynValue::List(vec![DynValue::Unsigned(3)]),
            DynValue::Object(vec![("four".to_string(), DynValue::Null)]),
        ]))
    );
}

#[test]
fn numbers_are_sorted_by_kind() {
    assert_eq!(parse_json("0"), Some(DynValue::Unsigned(0)));
    assert_eq!(parse_json("18446744073709551615"), Some(DynValue::Unsigned(u64::MAX)));
    assert_eq!(parse_json("-1"), Some(DynValue::Signed(-1)));
    assert_eq!(parse_json("-9223372036854775808"), Some(DynValue::Signed(i64::MIN)));
    assert_eq!(parse_json("1.5"), Some(DynValue::Float("1.5".into())));
    assert_eq!(parse_json("1.0"), Some(DynValue::Float("1.0".into())));
    assert_eq!(parse_json("1e2"), Some(DynValue::Float("100.0".into())));
    assert_eq!(parse_json("-0"), Some(DynValue::Float("-0.0".into())));
}

#[test]
fn refuses_what_is_no_json() {
    for bad in ["", "{", "[1,]", "{\"a\"}", "nul", "1 2", "'a'", "{a: 1}", "+1", "01"] {
        assert_eq!(parse_json(bad), None, "{bad}");
    }
}

#[test]
fn object_keys_come_in_one_order() {
    assert_eq!(
        parse_json(r#"{"b": 1, "a": 2}"#),
        parse_json(r#"{"a": 2, "b": 1}"#)
    );
}

#[test]
fn normalizing_turns_integer_texts_into_integers() {
    let raw = DynValue::Object(vec![
        ("a".to_string(), DynValue::Float("12".into())),
        ("b".to_string(), DynValue::List(vec![DynValue::Float("-12".into()), DynValue::Float("1.2".into())])),
        ("c".to_string(), text("12")),
        ("d".to_string(), DynValue::Float("18446744073709551616".into())),
    ]);
    assert_eq!(
        normalize(raw),
        DynValue::Object(vec![
            ("a".to_string(), DynValue::Unsigned(12)),
            ("b".to_string(), DynValue::List(vec![DynValue::Signed(-12), DynValue::Float("1.2".into())])),
            ("c".to_string(), text("12")),
            ("d".to_string(), DynValue::Float("18446744073709551616".into())),
        ])
    );
}

#[test]
fn a_tree_is_taken_apart_level_by_level() {
    let mut inner = serde_json::Map::new();
    inner.insert("n".to_string(), serde_json::Value::Number(serde_json::Number::from(7u64)));
    inner.insert("b".to_string(), serde_json::Value::Bool(false));
    let tree = serde_json::Value::Array(vec![
        serde_json::Value::Null,
        serde_json::Value::String("x".to_string()),
        serde_json::Value::Number(serde_json::Number::from(-3i64)),
        serde_json::Value::Object(inner),
    ]);
    assert_eq!(
        from_json(tree),
        DynValue::List(vec![
            DynValue::Null,
            text("x"),
            DynValue::Float("-3".to_string()),
            DynValue::Object(vec![
                ("b".to_string(), DynValue::Bool(false)),
                ("n".to_string(), DynValue::Float("7".to_string())),
            ]),
        ])
    );
}

#[test]
fn a_key_that_stands_twice_in_a_text_is_read_once() {
    assert_eq!(
        parse_json(r#"{"a": 1, "b": {"c": 2, "c": [3]}, "a": "last"}"#),
        Some(DynValue::Object(vec![
            ("a".to_string(), text("last")),
            ("b".to_string(), DynValue::Object(vec![("c".to_string(), DynValue::List(vec![DynValue::Unsigned(3)]))])),
        ]))
    );
}
