use cloaked_req::error::NativeError;
use cloaked_req::json::JsonValue;

fn text(s: &str) -> JsonValue {
    JsonValue::Text(s.to_string())
}

#[test]
fn encode_serializes_expected_shape() {
    let details = JsonValue::Object(vec![("value".to_string(), text("BAD METHOD"))]);
    let error = NativeError::new("invalid_request", "invalid HTTP method", details);

    let encoded = error.encode();
    let decoded: serde_json::Value =
        serde_json::from_slice(&encoded).expect("error JSON should decode");

    assert_eq!(decoded["type"], "invalid_request");
    assert_eq!(decoded["message"], "invalid HTTP method");
    assert_eq!(decoded["details"]["value"], "BAD METHOD");
}

#[test]
fn encode_handles_empty_message() {
    let error = NativeError::new("native_error", "", JsonValue::Object(vec![]));

    let encoded = error.encode();
    let decoded: serde_json::Value =
        serde_json::from_slice(&encoded).expect("error JSON should decode");

    assert_eq!(decoded["type"], "native_error");
    assert_eq!(decoded["message"], "");
    assert!(decoded["details"].as_object().unwrap().is_empty());
}

#[test]
fn encode_handles_nested_details() {
    let context = JsonValue::Object(vec![
        ("host".to_string(), text("example.com")),
        ("port".to_string(), JsonValue::Num(443)),
        (
            "attempts".to_string(),
            JsonValue::List(vec![JsonValue::Num(1), JsonValue::Num(2), JsonValue::Num(3)]),
        ),
    ]);
    let details = JsonValue::Object(vec![
        ("reason".to_string(), text("timeout")),
        (
            "debug".to_string(),
            text("hyper::Error(Connect, ConnectError(\"tcp connect error\"))"),
        ),
        ("context".to_string(), context),
    ]);
    let error = NativeError::new("transport_error", "connection failed", details);

    let encoded = error.encode();
    let decoded: serde_json::Value =
        serde_json::from_slice(&encoded).expect("error JSON should decode");

    assert_eq!(decoded["type"], "transport_error");
    assert_eq!(decoded["details"]["reason"], "timeout");
    assert_eq!(decoded["details"]["context"]["host"], "example.com");
    assert_eq!(decoded["details"]["context"]["port"], 443);
    assert_eq!(
        decoded["details"]["context"]["attempts"].as_array().unwrap().len(),
        3
    );
}

#[test]
fn encode_produces_exact_json_text() {
    let details = JsonValue::Object(vec![
        ("limit".to_string(), JsonValue::Num(100)),
        ("ok".to_string(), JsonValue::Bool(true)),
        ("none".to_string(), JsonValue::Null),
    ]);
    let error = NativeError::new("invalid_request", "over the limit", details);

    let encoded = String::from_utf8(error.encode()).expect("encoded error is UTF-8");
    assert_eq!(
        encoded,
        "{\"type\":\"invalid_request\",\"message\":\"over the limit\",\
         \"details\":{\"limit\":100,\"ok\":true,\"none\":null}}"
    );
}

#[test]
fn encode_escapes_quotes_backslashes_and_control_bytes() {
    let details = JsonValue::Object(vec![("raw".to_string(), text("a\"b\\c\nd\te\u{1}f"))]);
    let error = NativeError::new("native_error", "esc", details);

    let encoded = error.encode();
    let decoded: serde_json::Value =
        serde_json::from_slice(&encoded).expect("escaped JSON should decode");
    assert_eq!(decoded["details"]["raw"], "a\"b\\c\nd\te\u{1}f");
}

#[test]
fn json_values_render_to_exact_text() {
    let value = JsonValue::List(vec![
        JsonValue::Num(10),
        text("a/b"),
        JsonValue::Bool(false),
        JsonValue::Null,
    ]);
    assert_eq!(
        cloaked_req::json::json_to_bytes(&value),
        b"[10,\"a/b\",false,null]".to_vec()
    );
}
