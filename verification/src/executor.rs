//! Decision logic of the request executor.
//!
//! One execution runs `ResolveClient -> BuildRequest -> AttachCookies ->
//! Send -> CaptureCookies -> ReadBody -> Done`, and any step may fail
//! with a typed error. The network steps run in the unverified driver
//! around this library; every decision along the way — is the method
//! token valid, is the emulation profile known, which `Set-Cookie`
//! headers may enter the jar, what the response meta looks like, which
//! error a failure maps to — is made by the functions here.

use vstd::prelude::*;
use vstd::string::StringSliceAdditionalSpecFns;
use vstd::utf8::{decode_utf8, encode_utf8, valid_utf8};

use crate::cookie::{cookie_domain_safe, is_cookie_domain_safe};
use crate::error::NativeError;
use crate::json::JsonValue;
use crate::response::NativeResponseMeta;

verus! {

/// An RFC 7230 token character: what may appear in an HTTP method.
pub open spec fn is_tchar(b: u8) -> bool {
    ||| b == 33
    ||| (35 <= b <= 39)
    ||| b == 42
    ||| b == 43
    ||| b == 45
    ||| b == 46
    ||| (48 <= b <= 57)
    ||| (65 <= b <= 90)
    ||| (94 <= b <= 96)
    ||| (97 <= b <= 122)
    ||| b == 124
    ||| b == 126
}

/// A syntactically valid HTTP method token: non-empty, token characters
/// only.
pub open spec fn valid_method_token(s: Seq<u8>) -> bool {
    s.len() > 0 && forall|i: int| 0 <= i < s.len() ==> is_tchar(#[trigger] s[i])
}

#[verifier::external_type_specification]
#[verifier::external_body]
pub struct ExMethod(http::Method);

/// Relies on `http::Method::from_bytes`: it accepts exactly the
/// non-empty byte sequences whose bytes all lie in its RFC 7230 token
/// character table, and rejects everything else.
#[verifier::external_body]
fn method_from_bytes(m: &[u8]) -> (r: Option<http::Method>)
    ensures
        r.is_some() == valid_method_token(m@),
{
    http::Method::from_bytes(m).ok()
}

/// Validates the request's method token. An invalid token is the
/// `invalid_request` error that echoes the offending value back.
pub fn validate_method(m: &str) -> (r: Result<http::Method, NativeError>)
    ensures
        r.is_ok() == valid_method_token(m.spec_bytes()),
        r matches Err(e) ==> {
            &&& !valid_method_token(m.spec_bytes())
            &&& e.kind@ == "invalid_request"@
            &&& e.message@ == "invalid HTTP method"@
            &&& two_text_details(e.details, "reason"@, "invalid HTTP method"@, "value"@, m@)
        },
{
    match method_from_bytes(m.as_bytes()) {
        Some(method) => Ok(method),
        None => {
            let mut fields: Vec<(String, JsonValue)> = Vec::new();
            fields.push(("reason".to_owned(), JsonValue::Text("invalid HTTP method".to_owned())));
            fields.push(("value".to_owned(), JsonValue::Text(m.to_owned())));
            Err(
                NativeError::new(
                    "invalid_request",
                    "invalid HTTP method",
                    JsonValue::Object(fields),
                ),
            )
        },
    }
}

/// Accepts or rejects the emulation profile, from the profile resolver's
/// verdict. Resolution itself is the engine's: its outcome and failure
/// text are taken as arguments, and an unknown profile always maps to
/// the `invalid_request` error below, whatever the resolver reported.
pub fn require_known_profile(name: &str, known: bool, reason: &str) -> (r: Result<
    (),
    NativeError,
>)
    ensures
        r.is_ok() == known,
        r matches Err(e) ==> {
            &&& !known
            &&& e.kind@ == "invalid_request"@
            &&& e.message@ == "unknown emulation profile"@
            &&& two_text_details(e.details, "reason"@, reason@, "value"@, name@)
        },
{
    if known {
        Ok(())
    } else {
        let mut fields: Vec<(String, JsonValue)> = Vec::new();
        fields.push(("reason".to_owned(), JsonValue::Text(reason.to_owned())));
        fields.push(("value".to_owned(), JsonValue::Text(name.to_owned())));
        Err(
            NativeError::new(
                "invalid_request",
                "unknown emulation profile",
                JsonValue::Object(fields),
            ),
        )
    }
}

/// The host component of an absolute URL, when the URL parses as a URI;
/// a URI without an authority yields the empty host.
pub uninterp spec fn host_of(url: Seq<char>) -> Option<Seq<char>>;

/// Relies on `http::Uri`'s `FromStr` and `Uri::host`: parsing is a
/// function of the URL text alone; `host()` returns the authority's
/// host, or nothing for authority-less URIs, mapped here to `""` as the
/// executor stores cookies under.
#[verifier::external_body]
fn url_host(url: &str) -> (r: Option<String>)
    ensures
        r.is_some() == host_of(url@).is_some(),
        r matches Some(h) ==> host_of(url@) == Some(h@),
{
    match url.parse::<http::Uri>() {
        Ok(u) => Some(match u.host() {
            Some(h) => h.to_string(),
            None => String::new(),
        }),
        Err(_) => None,
    }
}

/// The subsequence of `Set-Cookie` headers that are safe to store for a
/// request to `host`.
pub open spec fn safe_subset(headers: Seq<Seq<u8>>, host: Seq<u8>) -> Seq<Seq<u8>> {
    headers.filter(|h: Seq<u8>| cookie_domain_safe(h, host))
}

/// Keeps exactly the `Set-Cookie` headers that pass domain-safety
/// validation against `host`, in order; the rest are dropped silently.
pub fn select_safe_cookies(host: &str, headers: &Vec<Vec<u8>>) -> (r: Vec<Vec<u8>>)
    ensures
        r.deep_view() == safe_subset(headers.deep_view(), host.spec_bytes()),
{
    let ghost pred = |h: Seq<u8>| cookie_domain_safe(h, host.spec_bytes());
    let ghost all = headers.deep_view();
    let mut out: Vec<Vec<u8>> = Vec::new();
    let n = headers.len();
    let mut i: usize = 0;
    proof {
        assert(all.take(0) =~= Seq::<Seq<u8>>::empty());
        assert(all.take(0).filter(pred) =~= Seq::<Seq<u8>>::empty());
        assert(out.deep_view() =~= Seq::<Seq<u8>>::empty());
    }
    while i < n
        invariant
            0 <= i <= n,
            n == headers@.len(),
            all == headers.deep_view(),
            pred == (|h: Seq<u8>| cookie_domain_safe(h, host.spec_bytes())),
            out.deep_view() == all.take(i as int).filter(pred),
        decreases n - i,
    {
        let ghost out_before = out.deep_view();
        proof {
            assert(headers@[i as int].deep_view() =~= headers@[i as int]@);
            assert(headers@[i as int].deep_view() == all[i as int]);
        }
        if is_cookie_domain_safe(headers[i].as_slice(), host) {
            let copied = vstd::slice::slice_to_vec(headers[i].as_slice());
            proof {
                assert(copied.deep_view() =~= copied@);
            }
            out.push(copied);
            proof {
                assert(out.deep_view() =~~= out_before.push(all[i as int]));
            }
        }
        proof {
            broadcast use vstd::prelude::Seq::lemma_filter_push;

            assert(all.take(i + 1) =~= all.take(i as int).push(all[i as int]));
            assert(pred(all[i as int]) == cookie_domain_safe(
                headers@[i as int]@,
                host.spec_bytes(),
            ));
            assert(all.take(i as int).push(all[i as int]).filter(pred) == if pred(
                all[i as int],
            ) {
                all.take(i as int).filter(pred).push(all[i as int])
            } else {
                all.take(i as int).filter(pred)
            });
            assert(out.deep_view() =~~= all.take(i + 1).filter(pred));
        }
        i = i + 1;
    }
    proof {
        assert(all.take(n as int) =~= all);
    }
    out
}

/// Every header that survives selection passed domain-safety validation:
/// nothing unsafe is ever handed on toward the jar.
pub proof fn lemma_only_safe_cookies_survive(headers: Seq<Seq<u8>>, host: Seq<u8>, i: int)
    requires
        0 <= i < safe_subset(headers, host).len(),
    ensures
        cookie_domain_safe(safe_subset(headers, host)[i], host),
{
    broadcast use vstd::prelude::Seq::lemma_filter_pred;

}

/// For a response to `url` and a supplied jar: the headers that may be
/// stored, or `None` when the URL does not parse as a URI, in which case
/// cookie capture is skipped silently.
pub fn safe_cookies_for_url(url: &str, headers: &Vec<Vec<u8>>) -> (r: Option<Vec<Vec<u8>>>)
    ensures
        r.is_some() == host_of(url@).is_some(),
        r matches Some(v) ==> host_of(url@) matches Some(h) && v.deep_view() == safe_subset(
            headers.deep_view(),
            encode_utf8(h),
        ),
{
    match url_host(url) {
        None => None,
        Some(h) => Some(select_safe_cookies(h.as_str(), headers)),
    }
}

/// What a header-value byte sequence reads as, decoded permissively:
/// invalid sequences are replaced, valid UTF-8 reads as itself.
pub uninterp spec fn lossy_decode(b: Seq<u8>) -> Seq<char>;

/// Relies on `String::from_utf8_lossy`: its result is a function of the
/// bytes alone, and valid UTF-8 decodes unchanged.
#[verifier::external_body]
fn lossy_string(b: &[u8]) -> (r: String)
    ensures
        r@ == lossy_decode(b@),
        valid_utf8(b@) ==> r@ == decode_utf8(b@),
{
    String::from_utf8_lossy(b).into_owned()
}

/// Assembles the response meta: status and final URL as reported, every
/// header value decoded permissively, order and duplicates preserved.
pub fn response_meta(status: u16, url: String, raw_headers: Vec<(String, Vec<u8>)>) -> (r:
    NativeResponseMeta)
    ensures
        r.status == status,
        r.url@ == url@,
        r.headers@.len() == raw_headers@.len(),
        forall|i: int|
            0 <= i < raw_headers@.len() ==> (#[trigger] r.headers@[i]).0@ == raw_headers@[i].0@
                && r.headers@[i].1@ == lossy_decode(raw_headers@[i].1@),
{
    let mut headers: Vec<(String, String)> = Vec::new();
    let n = raw_headers.len();
    let mut i: usize = 0;
    while i < n
        invariant
            0 <= i <= n,
            n == raw_headers@.len(),
            headers@.len() == i,
            forall|j: int|
                0 <= j < i ==> (#[trigger] headers@[j]).0@ == raw_headers@[j].0@ && headers@[j].1@
                    == lossy_decode(raw_headers@[j].1@),
        decreases n - i,
    {
        let name = raw_headers[i].0.clone();
        let value = lossy_string(raw_headers[i].1.as_slice());
        headers.push((name, value));
        i = i + 1;
    }
    NativeResponseMeta { status, url, headers }
}

/// Maps a caught internal fault to the `nif_panic` error, preserving the
/// captured panic message verbatim, with a fixed placeholder when none
/// could be captured.
pub fn panic_to_error(message: Option<String>) -> (r: NativeError)
    ensures
        r.kind@ == "nif_panic"@,
        match message {
            Some(m) => r.message@ == m@,
            None => r.message@ == "unknown panic"@,
        },
        r.details matches JsonValue::Object(fs) && fs@.len() == 0,
{
    let text = match message {
        Some(m) => m,
        None => "unknown panic".to_owned(),
    };
    NativeError { kind: "nif_panic".to_owned(), message: text, details: crate::json::empty_object() }
}

/// The `transport_error` for a failure while sending the request.
pub fn send_failure(reason: &str, debug_text: &str) -> (r: NativeError)
    ensures
        r.kind@ == "transport_error"@,
        r.message@ == "request execution failed"@,
        transport_details(r.details, reason@, debug_text@),
{
    NativeError::new("transport_error", "request execution failed", transport_payload(reason, debug_text))
}

/// The `transport_error` for a failure while reading the response body.
pub fn body_read_failure(reason: &str, debug_text: &str) -> (r: NativeError)
    ensures
        r.kind@ == "transport_error"@,
        r.message@ == "failed to read response body"@,
        transport_details(r.details, reason@, debug_text@),
{
    NativeError::new(
        "transport_error",
        "failed to read response body",
        transport_payload(reason, debug_text),
    )
}

/// The `transport_error` for a failure while building an HTTP client.
pub fn client_build_failure(reason: &str, debug_text: &str) -> (r: NativeError)
    ensures
        r.kind@ == "transport_error"@,
        r.message@ == "failed to build HTTP client"@,
        transport_details(r.details, reason@, debug_text@),
{
    NativeError::new(
        "transport_error",
        "failed to build HTTP client",
        transport_payload(reason, debug_text),
    )
}

/// The `decode_request` error: the inbound payload did not deserialize
/// into a request descriptor.
pub fn decode_request_failure(reason: &str) -> (r: NativeError)
    ensures
        r.kind@ == "decode_request"@,
        r.message@ == "failed to decode request"@,
        r.details is Object && r.details->Object_0@.len() == 1 && r.details->Object_0@[0].0@
            == "reason"@ && r.details->Object_0@[0].1 is Text && r.details->Object_0@[0].1->Text_0@
            == reason@,
{
    let mut fields: Vec<(String, JsonValue)> = Vec::new();
    fields.push(("reason".to_owned(), JsonValue::Text(reason.to_owned())));
    NativeError::new("decode_request", "failed to decode request", JsonValue::Object(fields))
}

/// A transport error's details: the short human-readable reason and the
/// full diagnostic text.
pub open spec fn transport_details(details: JsonValue, reason: Seq<char>, debug_text: Seq<char>) -> bool {
    two_text_details(details, "reason"@, reason, "debug"@, debug_text)
}

/// A details payload of exactly two string members, keys and values as
/// given, in order.
pub open spec fn two_text_details(
    details: JsonValue,
    key0: Seq<char>,
    val0: Seq<char>,
    key1: Seq<char>,
    val1: Seq<char>,
) -> bool {
    &&& details is Object
    &&& details->Object_0@.len() == 2
    &&& details->Object_0@[0].0@ == key0
    &&& details->Object_0@[0].1 is Text
    &&& details->Object_0@[0].1->Text_0@ == val0
    &&& details->Object_0@[1].0@ == key1
    &&& details->Object_0@[1].1 is Text
    &&& details->Object_0@[1].1->Text_0@ == val1
}

/// Builds the `{reason, debug}` payload every transport error carries.
fn transport_payload(reason: &str, debug_text: &str) -> (r: JsonValue)
    ensures
        transport_details(r, reason@, debug_text@),
{
    let mut fields: Vec<(String, JsonValue)> = Vec::new();
    fields.push(("reason".to_owned(), JsonValue::Text(reason.to_owned())));
    fields.push(("debug".to_owned(), JsonValue::Text(debug_text.to_owned())));
    JsonValue::Object(fields)
}

} // verus!
