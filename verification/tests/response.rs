use rayo::response::{response_from_output, wire_status, HandlerOutput, HandlerResponse};
use rayo::text::push_decimal;

#[test]
fn fixed_responses() {
    let error = HandlerResponse::internal_error();
    assert_eq!(error.status, 500);
    assert_eq!(error.content_type, "text/plain; charset=utf-8");
    assert_eq!(error.body, b"Internal Server Error".to_vec());
    let empty = HandlerResponse::no_content();
    assert_eq!(empty.status, 204);
    assert!(empty.body.is_empty());
}

#[test]
fn outputs_become_responses() {
    assert_eq!(response_from_output(HandlerOutput::Nothing).status, 204);
    let text = response_from_output(HandlerOutput::Text(b"hi".to_vec()));
    assert_eq!((text.status, text.content_type, text.body), (200, "text/plain; charset=utf-8", b"hi".to_vec()));
    let json = response_from_output(HandlerOutput::Json(b"{}".to_vec()));
    assert_eq!((json.status, json.content_type, json.body), (200, "application/json", b"{}".to_vec()));
    assert_eq!(response_from_output(HandlerOutput::UndecodableText).status, 500);
    assert_eq!(response_from_output(HandlerOutput::Unserializable).status, 500);
}

#[test]
fn wire_status_falls_back_to_500() {
    assert_eq!(wire_status(200), 200);
    assert_eq!(wire_status(100), 100);
    assert_eq!(wire_status(999), 999);
    assert_eq!(wire_status(99), 500);
    assert_eq!(wire_status(1000), 500);
}

#[test]
fn decimal_text() {
    let mut text = String::from("n=");
    push_decimal(&mut text, 0);
    assert_eq!(text, "n=0");
    let mut big = String::new();
    push_decimal(&mut big, 18446744073709551615);
    assert_eq!(big, "18446744073709551615");
}
