//! The response shapes handed back to the host.

use vstd::prelude::*;

verus! {

/// What one successful execution yields besides the raw body bytes:
/// status code, final URL after redirects, and the response headers in
/// order, values decoded permissively.
pub struct NativeResponseMeta {
    pub status: u16,
    pub url: String,
    pub headers: Vec<(String, String)>,
}

/// A whole response in the JSON transport convention: as
/// `NativeResponseMeta`, with the body carried base64-encoded.
pub struct NativeResponse {
    pub status: u16,
    pub url: String,
    pub headers: Vec<[String; 2]>,
    pub body_base64: String,
}

} // verus!
