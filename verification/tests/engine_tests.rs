use cloaked_req::body::{parse_usize_dec, BodyReader};
use cloaked_req::executor::{
    body_read_failure, client_build_failure, decode_request_failure, panic_to_error,
    require_known_profile, response_meta, safe_cookies_for_url, select_safe_cookies, send_failure,
    validate_method,
};
use cloaked_req::pool::{ClientKey, ClientPool};
use cloaked_req::request::{default_timeout_ms, NativeRequest};
use cloaked_req::response::NativeResponse;

fn key(profile: Option<&str>, skip: bool) -> ClientKey {
    ClientKey {
        emulation: profile.map(|s| s.to_string()),
        insecure_skip_verify: skip,
    }
}

#[test]
fn pool_same_key_observes_same_client() {
    let mut pool: ClientPool<u32> = ClientPool::new();
    assert_eq!(pool.find(&key(Some("chrome_136"), false)), None);

    let first = pool.insert(key(Some("chrome_136"), false), 7);
    let second = pool.insert(key(Some("chrome_136"), true), 8);
    assert_ne!(first, second);

    let hit_a = pool.find(&key(Some("chrome_136"), false)).expect("key must be cached");
    let hit_b = pool.find(&key(Some("chrome_136"), false)).expect("key must be cached");
    assert_eq!(hit_a, hit_b);
    assert_eq!(*pool.client_at(hit_a), 7);
    assert_eq!(*pool.client_at(hit_b), 7);

    let other = pool.find(&key(Some("chrome_136"), true)).expect("key must be cached");
    assert_eq!(*pool.client_at(other), 8);
    assert_eq!(pool.len(), 2);
}

#[test]
fn pool_distinguishes_no_profile_from_profile() {
    let mut pool: ClientPool<u32> = ClientPool::new();
    pool.insert(key(None, false), 1);
    assert_eq!(pool.find(&key(Some("chrome_136"), false)), None);
    assert_eq!(pool.find(&key(None, true)), None);
    let hit = pool.find(&key(None, false)).expect("key must be cached");
    assert_eq!(*pool.client_at(hit), 1);
}

#[test]
fn body_at_exact_limit_succeeds() {
    let mut reader = BodyReader::new(Some(100), Some(100));
    let chunk = vec![b'x'; 100];
    assert!(reader.push_chunk(&chunk).is_ok());
    assert_eq!(reader.len(), 100);
    assert_eq!(reader.into_bytes().len(), 100);
}

#[test]
fn body_over_limit_fails_with_limit_in_details() {
    let mut reader = BodyReader::new(Some(100), None);
    let chunk = vec![b'x'; 101];
    let err = reader.push_chunk(&chunk).expect_err("expected error");
    assert_eq!(err.kind, "invalid_request");
    assert_eq!(err.message, "response body exceeds max_body_size");

    let decoded: serde_json::Value =
        serde_json::from_slice(&err.encode()).expect("error JSON should decode");
    assert_eq!(decoded["details"]["limit"], 100);
}

#[test]
fn body_limit_applies_across_chunks() {
    let mut reader = BodyReader::new(Some(100), None);
    assert!(reader.push_chunk(&vec![b'a'; 60]).is_ok());
    assert!(reader.push_chunk(&vec![b'b'; 40]).is_ok());
    let err = reader.push_chunk(b"c").expect_err("one byte over the limit");
    assert_eq!(err.kind, "invalid_request");
    let body = reader.into_bytes();
    assert_eq!(body.len(), 100);
    assert_eq!(&body[..60], &vec![b'a'; 60][..]);
}

#[test]
fn body_without_limit_accepts_any_length() {
    let mut reader = BodyReader::new(None, None);
    assert!(reader.push_chunk(&vec![b'x'; 4096]).is_ok());
    assert!(reader.push_chunk(&vec![b'y'; 4096]).is_ok());
    assert_eq!(reader.len(), 8192);
}

#[test]
fn empty_body_is_accepted() {
    let mut reader = BodyReader::new(Some(100), Some(0));
    assert!(reader.push_chunk(b"").is_ok());
    assert!(reader.into_bytes().is_empty());
}

#[test]
fn unknown_profile_yields_invalid_request() {
    let err = require_known_profile("unknown_browser", false, "unknown variant")
        .expect_err("expected error");
    assert_eq!(err.kind, "invalid_request");
    assert_eq!(err.message, "unknown emulation profile");

    let decoded: serde_json::Value =
        serde_json::from_slice(&err.encode()).expect("error JSON should decode");
    assert_eq!(decoded["details"]["value"], "unknown_browser");

    assert!(require_known_profile("chrome_136", true, "").is_ok());
}

#[test]
fn malformed_method_yields_invalid_request() {
    let err = validate_method("BAD METHOD").expect_err("expected error");
    assert_eq!(err.kind, "invalid_request");
    assert_eq!(err.message, "invalid HTTP method");

    let decoded: serde_json::Value =
        serde_json::from_slice(&err.encode()).expect("error JSON should decode");
    assert_eq!(decoded["details"]["value"], "BAD METHOD");
}

#[test]
fn valid_methods_parse() {
    assert_eq!(validate_method("GET").expect("GET is valid"), http::Method::GET);
    assert_eq!(validate_method("POST").expect("POST is valid"), http::Method::POST);
    assert!(validate_method("PURGE").is_ok());
    assert!(validate_method("").is_err());
}

#[test]
fn panic_message_is_preserved_verbatim() {
    let err = panic_to_error(Some("simulated NIF panic".to_string()));
    assert_eq!(err.kind, "nif_panic");
    assert_eq!(err.message, "simulated NIF panic");

    let fallback = panic_to_error(None);
    assert_eq!(fallback.kind, "nif_panic");
    assert_eq!(fallback.message, "unknown panic");
}

#[test]
fn safe_cookie_selection_filters_by_host() {
    let headers = vec![
        b"a=1; Domain=example.com".to_vec(),
        b"b=1; Domain=other.com".to_vec(),
        b"c=1".to_vec(),
        b"d=1; Domain=com".to_vec(),
    ];
    let kept = select_safe_cookies("sub.example.com", &headers);
    assert_eq!(
        kept,
        vec![b"a=1; Domain=example.com".to_vec(), b"c=1".to_vec()]
    );
}

#[test]
fn cookie_capture_uses_the_url_host() {
    let headers = vec![
        b"a=1; Domain=example.com".to_vec(),
        b"b=1; Domain=other.com".to_vec(),
    ];
    let kept = safe_cookies_for_url("http://sub.example.com/path?q=1", &headers)
        .expect("absolute URL must parse");
    assert_eq!(kept, vec![b"a=1; Domain=example.com".to_vec()]);
}

#[test]
fn cookie_capture_skips_unparsable_urls() {
    let headers = vec![b"a=1".to_vec()];
    assert!(safe_cookies_for_url("http://[::1", &headers).is_none());
}

#[test]
fn response_meta_decodes_header_values_permissively() {
    let meta = response_meta(
        200,
        "http://example.com/".to_string(),
        vec![
            ("x-binary".to_string(), vec![0xff, 0xfe]),
            ("content-type".to_string(), b"text/plain".to_vec()),
        ],
    );
    assert_eq!(meta.status, 200);
    assert_eq!(meta.url, "http://example.com/");
    assert_eq!(meta.headers.len(), 2);
    assert_eq!(meta.headers[0].0, "x-binary");
    assert!(meta.headers[0].1.contains('\u{FFFD}'));
    assert_eq!(meta.headers[1], ("content-type".to_string(), "text/plain".to_string()));
}

#[test]
fn request_defaults_and_client_key() {
    assert_eq!(default_timeout_ms(), 30_000);

    let request = NativeRequest {
        method: "GET".to_string(),
        url: "https://example.com".to_string(),
        headers: vec![],
        receive_timeout_ms: default_timeout_ms(),
        emulation: Some("chrome_136".to_string()),
        insecure_skip_verify: false,
        max_body_size_bytes: None,
        local_address: None,
    };
    let k = request.client_key();
    assert_eq!(k.emulation.as_deref(), Some("chrome_136"));
    assert!(!k.insecure_skip_verify);
}

#[test]
fn response_shape_holds_status_headers_and_body() {
    let response = NativeResponse {
        status: 200,
        url: "https://example.com/path".to_string(),
        headers: vec![["content-type".to_string(), "text/plain".to_string()]],
        body_base64: "aGVsbG8=".to_string(),
    };
    assert_eq!(response.status, 200);
    assert_eq!(response.headers[0][1], "text/plain");
    assert_eq!(response.body_base64, "aGVsbG8=");
}

#[test]
fn trim_strips_ascii_whitespace() {
    assert_eq!(cloaked_req::text::trim_bytes(b"  x \t"), b"x".to_vec());
    assert_eq!(cloaked_req::text::trim_bytes(b""), Vec::<u8>::new());
    assert_eq!(cloaked_req::text::lower_vec(b"AbC-1"), b"abc-1".to_vec());
}

#[test]
fn content_length_hint_reads_the_first_matching_header() {
    let headers = vec![
        ("content-type".to_string(), b"text/plain".to_vec()),
        ("Content-Length".to_string(), b"42".to_vec()),
        ("content-length".to_string(), b"7".to_vec()),
    ];
    assert_eq!(cloaked_req::body::content_length_hint(&headers), Some(42));

    let none = vec![("content-type".to_string(), b"text/plain".to_vec())];
    assert_eq!(cloaked_req::body::content_length_hint(&none), None);
}

#[test]
fn declared_lengths_parse_like_decimal_integers() {
    assert_eq!(parse_usize_dec(b"0"), Some(0));
    assert_eq!(parse_usize_dec(b"+123"), Some(123));
    assert_eq!(parse_usize_dec(b"18446744073709551615"), Some(usize::MAX));
    assert_eq!(parse_usize_dec(b"18446744073709551616"), None);
    assert_eq!(parse_usize_dec(b""), None);
    assert_eq!(parse_usize_dec(b"+"), None);
    assert_eq!(parse_usize_dec(b" 1"), None);
    assert_eq!(parse_usize_dec(b"1x"), None);
}

#[test]
fn transport_errors_carry_reason_and_debug() {
    let err = send_failure("timeout", "hyper::Error(Connect)");
    assert_eq!(err.kind, "transport_error");
    assert_eq!(err.message, "request execution failed");
    let decoded: serde_json::Value =
        serde_json::from_slice(&err.encode()).expect("error JSON should decode");
    assert_eq!(decoded["details"]["reason"], "timeout");
    assert_eq!(decoded["details"]["debug"], "hyper::Error(Connect)");

    let read = body_read_failure("connection reset", "io details");
    assert_eq!(read.kind, "transport_error");
    assert_eq!(read.message, "failed to read response body");

    let build = client_build_failure("bad TLS config", "builder details");
    assert_eq!(build.kind, "transport_error");
    assert_eq!(build.message, "failed to build HTTP client");
}

#[test]
fn undecodable_payloads_yield_decode_request() {
    let err = decode_request_failure("missing field `url`");
    assert_eq!(err.kind, "decode_request");
    assert_eq!(err.message, "failed to decode request");
    let decoded: serde_json::Value =
        serde_json::from_slice(&err.encode()).expect("error JSON should decode");
    assert_eq!(decoded["details"]["reason"], "missing field `url`");
}
