//! The request descriptor handed in by the host for one execution.

use vstd::prelude::*;

use crate::pool::ClientKey;

verus! {

/// The receive timeout applied when the caller names none.
pub fn default_timeout_ms() -> (r: u64)
    ensures
        r == 30000,
{
    30_000
}

/// One outbound request, immutable for the duration of one execution.
pub struct NativeRequest {
    /// HTTP method token, such as `GET` or `POST`.
    pub method: String,
    /// Absolute target URL.
    pub url: String,
    /// Header (name, value) pairs, in order; duplicate names allowed.
    pub headers: Vec<(String, String)>,
    /// Receive timeout in milliseconds.
    pub receive_timeout_ms: u64,
    /// Emulation profile name; `None` means no emulation.
    pub emulation: Option<String>,
    /// Whether to disable certificate verification for this request.
    pub insecure_skip_verify: bool,
    /// Response-body byte ceiling; `None` means unbounded.
    pub max_body_size_bytes: Option<u64>,
    /// Local address to bind the connection to, if any.
    pub local_address: Option<String>,
}

impl NativeRequest {
    /// The client-cache identity this request resolves to: its emulation
    /// profile and certificate-verification policy.
    pub fn client_key(&self) -> (r: ClientKey)
        ensures
            r@.0 == match self.emulation {
                Some(s) => Some(s@),
                None => None::<Seq<char>>,
            },
            r@.1 == self.insecure_skip_verify,
    {
        let emulation = match &self.emulation {
            Some(s) => Some(s.clone()),
            None => None,
        };
        ClientKey { emulation, insecure_skip_verify: self.insecure_skip_verify }
    }
}

} // verus!
