use signaling::json::{find_field, JsonValue};

fn s(t: &str) -> JsonValue {
    JsonValue::Str(t.to_string())
}

#[test]
fn json_reads_every_kind_of_value() {
    let j = JsonValue::from_str(r#"{"b":[true,null],"a":1,"c":"x","d":-2,"e":1.5}"#).unwrap();
    let expected = JsonValue::Object(vec![
        ("a".to_string(), JsonValue::U64(1)),
        ("b".to_string(), JsonValue::Array(vec![JsonValue::Boolean(true), JsonValue::Null])),
        ("c".to_string(), s("x")),
        ("d".to_string(), JsonValue::I64(-2)),
        ("e".to_string(), JsonValue::F64("1.5".to_string())),
    ]);
    assert_eq!(j, expected);
}

#[test]
fn json_refuses_broken_text() {
    assert!(JsonValue::from_str("{\"a\":").is_none());
    assert!(JsonValue::from_str("").is_none());
    assert!(JsonValue::from_str("nope").is_none());
}

#[test]
fn json_writes_compact_text_in_key_order() {
    let j = JsonValue::Object(vec![
        ("z".to_string(), JsonValue::U64(1)),
        ("a".to_string(), JsonValue::Array(vec![s("x"), JsonValue::Null, JsonValue::Boolean(false)])),
    ]);
    assert_eq!(j.to_string(), r#"{"a":["x",null,false],"z":1}"#);
}

#[test]
fn json_writes_numbers() {
    assert_eq!(JsonValue::I64(-7).to_string(), "-7");
    assert_eq!(JsonValue::U64(7).to_string(), "7");
    assert_eq!(JsonValue::F64("2.5".to_string()).to_string(), "2.5");
    assert_eq!(JsonValue::F64("3".to_string()).to_string(), "3.0");
}

#[test]
fn json_writes_escaped_strings() {
    assert_eq!(s("a\"b").to_string(), r#""a\"b""#);
    assert_eq!(s("指令").to_string(), "\"指令\"");
}

#[test]
fn json_get_finds_the_last_entry() {
    let j = JsonValue::Object(vec![
        ("k".to_string(), JsonValue::U64(1)),
        ("k".to_string(), JsonValue::U64(2)),
    ]);
    assert_eq!(j.get("k"), Some(&JsonValue::U64(2)));
    assert_eq!(j.to_string(), r#"{"k":2}"#);
    assert_eq!(j.get("x"), None);
    assert_eq!(JsonValue::Null.get("k"), None);
}

#[test]
fn json_find_field_in_entries() {
    let fields = vec![("a".to_string(), JsonValue::Null), ("b".to_string(), s("y"))];
    assert_eq!(find_field(&fields, "b"), Some(&s("y")));
    assert_eq!(find_field(&fields, "c"), None);
}

#[test]
fn json_clone_is_equal() {
    let j = JsonValue::from_str(r#"{"a":[1,{"b":"c"}],"d":2.25}"#).unwrap();
    assert_eq!(j.clone(), j);
}

#[test]
fn json_text_round_trip_for_a_nested_value() {
    let text = r#"{"a":[1,-1,{"b":"c"}],"d":2.25,"e":null}"#;
    let j = JsonValue::from_str(text).unwrap();
    assert_eq!(j.to_string(), text);
}
