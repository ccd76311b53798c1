use rayo::params::{
    convert_param, parse_bool, parse_i64, resolve_params, validation_error_response, ParamKind,
    ParamValue,
};

#[test]
fn validation_error_body_is_json_with_detail() {
    let response = validation_error_response("user_id", ParamKind::Int, "abc");
    assert_eq!(response.status, 422);
    let body_text = String::from_utf8(response.body)
        .unwrap_or_else(|invalid| panic!("non-UTF-8 body: {invalid}"));
    assert_eq!(
        body_text,
        "{\"detail\":\"path parameter 'user_id' expected int, got 'abc'\"}"
    );
}

#[test]
fn validation_error_escapes_quotes_in_values() {
    let response = validation_error_response("flag", ParamKind::Bool, "a\"b\\c");
    assert_eq!(response.content_type, "application/json");
    let body_text = String::from_utf8(response.body).unwrap();
    assert_eq!(
        body_text,
        "{\"detail\":\"path parameter 'flag' expected bool, got 'a\\\"b\\\\c'\"}"
    );
}

#[test]
fn kind_codes_and_names() {
    assert_eq!(ParamKind::from_code(0), Some(ParamKind::Str));
    assert_eq!(ParamKind::from_code(1), Some(ParamKind::Int));
    assert_eq!(ParamKind::from_code(2), Some(ParamKind::Float));
    assert_eq!(ParamKind::from_code(3), Some(ParamKind::Bool));
    assert_eq!(ParamKind::from_code(4), None);
    assert_eq!(ParamKind::Str.expected_name(), "str");
    assert_eq!(ParamKind::Int.expected_name(), "int");
    assert_eq!(ParamKind::Float.expected_name(), "float");
    assert_eq!(ParamKind::Bool.expected_name(), "bool");
}

#[test]
fn integers_parse_like_the_standard_library() {
    for text in [
        "0", "42", "-7", "+13", "9223372036854775807", "-9223372036854775808",
        "9223372036854775808", "-9223372036854775809", "", "+", "-", "1a", " 1", "--1",
        "000123", "99999999999999999999999",
    ] {
        assert_eq!(parse_i64(text.as_bytes()), text.parse::<i64>().ok(), "{text:?}");
    }
}

#[test]
fn booleans_accept_words_in_any_case_and_digits() {
    assert_eq!(parse_bool(b"true"), Some(true));
    assert_eq!(parse_bool(b"TrUe"), Some(true));
    assert_eq!(parse_bool(b"1"), Some(true));
    assert_eq!(parse_bool(b"FALSE"), Some(false));
    assert_eq!(parse_bool(b"0"), Some(false));
    assert_eq!(parse_bool(b"yes"), None);
    assert_eq!(parse_bool(b"truee"), None);
    assert_eq!(parse_bool(b""), None);
}

#[test]
fn conversion_by_kind() {
    assert!(matches!(convert_param("n", ParamKind::Int, "12"), Ok(ParamValue::Integer(12))));
    assert!(matches!(convert_param("b", ParamKind::Bool, "0"), Ok(ParamValue::Boolean(false))));
    assert!(matches!(convert_param("s", ParamKind::Str, "x y"), Ok(ParamValue::Text(t)) if t == "x y"));
    assert!(matches!(convert_param("f", ParamKind::Float, "1.5"), Ok(ParamValue::FloatText(t)) if t == "1.5"));
    match convert_param("n", ParamKind::Int, "x") {
        Err(response) => assert_eq!(response.status, 422),
        Ok(_) => panic!("non-integer should be refused"),
    }
}

#[test]
fn resolve_takes_first_match_in_declaration_order() {
    let declared = vec![("b".to_owned(), ParamKind::Int), ("a".to_owned(), ParamKind::Str)];
    let matched = vec![
        ("a".to_owned(), "first".to_owned()),
        ("b".to_owned(), "5".to_owned()),
        ("a".to_owned(), "second".to_owned()),
    ];
    let (resolved, failure) = resolve_params(&declared, &matched);
    assert!(failure.is_none());
    assert_eq!(resolved.len(), 2);
    assert_eq!(resolved[0].0, "b");
    assert!(matches!(resolved[0].1, ParamValue::Integer(5)));
    assert_eq!(resolved[1].0, "a");
    assert!(matches!(&resolved[1].1, ParamValue::Text(t) if t == "first"));
}

#[test]
fn resolve_reports_missing_parameter_as_internal_error() {
    let declared = vec![("id".to_owned(), ParamKind::Int)];
    let matched = vec![("other".to_owned(), "5".to_owned())];
    match resolve_params(&declared, &matched) {
        (values, Some(response)) => {
            assert!(values.is_empty());
            assert_eq!(response.status, 500);
            assert_eq!(response.body, b"Internal Server Error".to_vec());
        }
        (_, None) => panic!("missing parameter should fail"),
    }
}

#[test]
fn resolve_reports_first_bad_value() {
    let declared = vec![
        ("z".to_owned(), ParamKind::Str),
        ("a".to_owned(), ParamKind::Int),
        ("b".to_owned(), ParamKind::Bool),
    ];
    let matched = vec![
        ("z".to_owned(), "ok".to_owned()),
        ("a".to_owned(), "x".to_owned()),
        ("b".to_owned(), "y".to_owned()),
    ];
    match resolve_params(&declared, &matched) {
        (values, Some(response)) => {
            assert_eq!(values.len(), 1);
            assert_eq!(values[0].0, "z");
            assert_eq!(response.status, 422);
            let text = String::from_utf8(response.body).unwrap();
            assert_eq!(text, "{\"detail\":\"path parameter 'a' expected int, got 'x'\"}");
        }
        (_, None) => panic!("bad value should fail"),
    }
}
