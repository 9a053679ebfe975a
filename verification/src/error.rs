//! The typed error taxonomy.
//!
//! Every failure of the engine is reported as a `NativeError`: a kind tag
//! (`invalid_request`, `transport_error`, `nif_panic`, `decode_request`),
//! a short message, and a structured JSON `details` payload.

use vstd::prelude::*;
use vstd::string::StringSliceAdditionalSpecFns;

use crate::json::{json_bytes, quoted_str, JsonValue};

verus! {

/// A typed failure descriptor handed back to the caller.
#[derive(Debug)]
pub struct NativeError {
    /// The taxonomy kind, such as `invalid_request` or `transport_error`.
    pub kind: String,
    /// A short human-readable message.
    pub message: String,
    /// A free-form structured payload with further context.
    pub details: JsonValue,
}

/// The JSON text of an error: an object with `type`, `message` and
/// `details` members, in that order.
pub open spec fn error_json(e: NativeError) -> Seq<u8> {
    seq![123u8] + quoted_str("type"@) + seq![58u8] + quoted_str(e.kind@) + seq![44u8]
        + quoted_str("message"@) + seq![58u8] + quoted_str(e.message@) + seq![44u8] + quoted_str(
        "details"@,
    ) + seq![58u8] + json_bytes(e.details) + seq![125u8]
}

impl NativeError {
    /// Builds an error from its kind tag, message and details payload.
    pub fn new(kind: &str, message: &str, details: JsonValue) -> (r: Self)
        ensures
            r.kind@ == kind@,
            r.message@ == message@,
            r.details == details,
    {
        NativeError { kind: kind.to_owned(), message: message.to_owned(), details }
    }

    /// Serializes the error as JSON text (UTF-8 bytes), for transports
    /// that carry errors as encoded strings.
    pub fn encode(&self) -> (r: Vec<u8>)
        ensures
            r@ == error_json(*self),
    {
        let mut out: Vec<u8> = Vec::new();
        out.push(123);
        crate::json::write_quoted_bytes("type".as_bytes(), &mut out);
        out.push(58);
        crate::json::write_quoted_bytes(self.kind.as_str().as_bytes(), &mut out);
        out.push(44);
        crate::json::write_quoted_bytes("message".as_bytes(), &mut out);
        out.push(58);
        crate::json::write_quoted_bytes(self.message.as_str().as_bytes(), &mut out);
        out.push(44);
        crate::json::write_quoted_bytes("details".as_bytes(), &mut out);
        out.push(58);
        crate::json::write_json(&self.details, &mut out);
        out.push(125);
        proof {
            assert(out@ =~= error_json(*self));
        }
        out
    }
}

} // verus!
