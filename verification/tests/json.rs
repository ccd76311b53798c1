use rayo::json::{write_json_string, write_json_value, JsonValue};

fn json_of(text: &str) -> String {
    let mut out = Vec::new();
    write_json_string(text, &mut out);
    String::from_utf8(out).unwrap()
}

#[test]
fn plain_text_is_only_quoted() {
    assert_eq!(json_of("hello"), "\"hello\"");
    assert_eq!(json_of(""), "\"\"");
    assert_eq!(json_of("héllo"), "\"héllo\"");
}

#[test]
fn special_bytes_are_escaped() {
    assert_eq!(json_of("a\"b"), "\"a\\\"b\"");
    assert_eq!(json_of("a\\b"), "\"a\\\\b\"");
    assert_eq!(json_of("\n\r\t\u{8}\u{c}"), "\"\\n\\r\\t\\b\\f\"");
    assert_eq!(json_of("\u{1}\u{1f}"), "\"\\u0001\\u001f\"");
}

#[test]
fn appends_after_existing_bytes() {
    let mut out = b"x=".to_vec();
    write_json_string("y", &mut out);
    assert_eq!(out, b"x=\"y\"".to_vec());
}

fn text_of(value: &JsonValue) -> String {
    let mut out = Vec::new();
    write_json_value(value, &mut out);
    String::from_utf8(out).unwrap()
}

#[test]
fn scalar_values_are_written_as_literals() {
    assert_eq!(text_of(&JsonValue::Null), "null");
    assert_eq!(text_of(&JsonValue::Bool(true)), "true");
    assert_eq!(text_of(&JsonValue::Bool(false)), "false");
    assert_eq!(text_of(&JsonValue::Number("-12".to_owned())), "-12");
    assert_eq!(text_of(&JsonValue::Number("2.5".to_owned())), "2.5");
    assert_eq!(text_of(&JsonValue::Text("a\"b\n".to_owned())), "\"a\\\"b\\n\"");
}

#[test]
fn nested_values_are_written_compactly_in_order() {
    let value = JsonValue::Object(vec![
        ("id".to_owned(), JsonValue::Number("7".to_owned())),
        (
            "tags".to_owned(),
            JsonValue::Array(vec![JsonValue::Text("x".to_owned()), JsonValue::Null, JsonValue::Bool(true)]),
        ),
        ("empty".to_owned(), JsonValue::Array(vec![])),
        ("nested".to_owned(), JsonValue::Object(vec![])),
    ]);
    assert_eq!(text_of(&value), r#"{"id":7,"tags":["x",null,true],"empty":[],"nested":{}}"#);
}
