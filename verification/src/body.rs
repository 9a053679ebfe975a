//! Bounded response-body capture.
//!
//! A response body arrives as a stream of chunks. The reader accumulates
//! them and fails fast once the configured byte ceiling would be
//! exceeded; a body of exactly the ceiling's size is accepted. Without a
//! ceiling the reader accumulates without bound.

use vstd::prelude::*;
use vstd::utf8::encode_utf8;

use crate::error::NativeError;
use crate::json::JsonValue;
use crate::text::lower_bytes;

verus! {

/// A decimal digit byte.
pub open spec fn is_digit(b: u8) -> bool {
    48 <= b <= 57
}

/// The value of a digit string, most significant digit first.
pub open spec fn dec_value(s: Seq<u8>) -> int
    decreases s.len(),
{
    if s.len() == 0 {
        0
    } else {
        dec_value(s.drop_last()) * 10 + (s.last() - 48)
    }
}

/// A string of decimal digits throughout.
pub open spec fn all_digits(s: Seq<u8>) -> bool {
    forall|i: int| 0 <= i < s.len() ==> is_digit(#[trigger] s[i])
}

/// The digits of a number text: one optional leading `+` sign dropped.
pub open spec fn sign_stripped(s: Seq<u8>) -> Seq<u8> {
    if s.len() > 0 && s[0] == 43 {
        s.drop_first()
    } else {
        s
    }
}

/// What `usize::from_str` makes of raw bytes: an optional `+` sign, then
/// at least one digit, and a value that fits.
pub open spec fn parse_usize_bytes(s: Seq<u8>) -> Option<int> {
    if sign_stripped(s).len() > 0 && all_digits(sign_stripped(s)) && dec_value(sign_stripped(s))
        <= usize::MAX {
        Some(dec_value(sign_stripped(s)))
    } else {
        None
    }
}

proof fn lemma_dec_value_nonneg(s: Seq<u8>)
    requires
        all_digits(s),
    ensures
        dec_value(s) >= 0,
    decreases s.len(),
{
    if s.len() > 0 {
        lemma_dec_value_nonneg(s.drop_last());
    }
}

proof fn lemma_dec_value_prefix_le(s: Seq<u8>, j: int)
    requires
        all_digits(s),
        0 <= j <= s.len(),
    ensures
        dec_value(s.take(j)) <= dec_value(s),
    decreases s.len() - j,
{
    if j < s.len() {
        lemma_dec_value_prefix_le(s, j + 1);
        assert(s.take(j + 1).drop_last() =~= s.take(j));
        assert(s.take(j + 1).last() == s[j]);
        assert(all_digits(s.take(j))) by {
            assert(forall|k: int| 0 <= k < j ==> s.take(j)[k] == s[k]);
        }
        lemma_dec_value_nonneg(s.take(j));
    } else {
        assert(s.take(j) =~= s);
    }
}

/// Parses raw bytes the way `usize::from_str` reads a header value:
/// an optional `+`, then decimal digits; anything else, an empty digit
/// string, or a value over `usize::MAX` is rejected.
pub fn parse_usize_dec(s: &[u8]) -> (r: Option<usize>)
    ensures
        r matches Some(n) ==> parse_usize_bytes(s@) == Some(n as int),
        r is None ==> parse_usize_bytes(s@) is None,
{
    let n = s.len();
    let start: usize = if n > 0 && s[0] == 43 {
        1
    } else {
        0
    };
    let ghost digits = sign_stripped(s@);
    proof {
        assert(digits =~= s@.subrange(start as int, n as int));
    }
    if start == n {
        return None;
    }
    let mut acc: usize = 0;
    let mut i: usize = start;
    proof {
        assert(digits.take(0) =~= Seq::<u8>::empty());
    }
    while i < n
        invariant
            start <= i <= n,
            n == s@.len(),
            digits == sign_stripped(s@),
            digits == s@.subrange(start as int, n as int),
            forall|j: int| 0 <= j < i - start ==> is_digit(#[trigger] digits[j]),
            acc == dec_value(digits.take(i - start)),
        decreases n - i,
    {
        let b = s[i];
        if b < 48 || b > 57 {
            proof {
                assert(digits[i - start] == s@[i as int]);
                assert(!is_digit(digits[i - start]));
                assert(!all_digits(digits));
                assert(parse_usize_bytes(s@) is None);
            }
            return None;
        }
        let d = (b - 48) as usize;
        if acc > (usize::MAX - d) / 10 {
            proof {
                assert(digits.take(i - start + 1).drop_last() =~= digits.take(i - start));
                assert(digits.take(i - start + 1).last() == digits[i - start]);
                assert(digits[i - start] == s@[i as int]);
                assert(dec_value(digits.take(i - start + 1)) == acc * 10 + d);
                assert(acc * 10 + d > usize::MAX) by {
                    let q = (usize::MAX - d) / 10;
                    assert(usize::MAX - d == 10 * q + ((usize::MAX - d) % 10));
                    assert(acc >= q + 1);
                };
                if all_digits(digits) {
                    lemma_dec_value_prefix_le(digits, i - start + 1);
                    assert(dec_value(digits) > usize::MAX);
                }
                assert(parse_usize_bytes(s@) is None);
            }
            return None;
        }
        acc = acc * 10 + d;
        proof {
            assert(digits.take(i - start + 1).drop_last() =~= digits.take(i - start));
            assert(digits.take(i - start + 1).last() == digits[i - start]);
            assert(digits[i - start] == s@[i as int]);
        }
        i = i + 1;
    }
    proof {
        assert(digits.take(n - start) =~= digits);
        assert(all_digits(digits));
        assert(parse_usize_bytes(s@) == Some(acc as int));
    }
    Some(acc)
}

/// The lower-cased bytes of `content-length`.
pub open spec fn content_length_name() -> Seq<u8> {
    seq![99u8, 111u8, 110u8, 116u8, 101u8, 110u8, 116u8, 45u8, 108u8, 101u8, 110u8, 103u8, 116u8, 104u8]
}

/// The value bytes of the first header named `content-length`, compared
/// case-insensitively.
pub open spec fn first_content_length(hs: Seq<(String, Vec<u8>)>) -> Option<Seq<u8>>
    decreases hs.len(),
{
    if hs.len() == 0 {
        None
    } else if lower_bytes(encode_utf8(hs[0].0@)) == content_length_name() {
        Some(hs[0].1@)
    } else {
        first_content_length(hs.drop_first())
    }
}

/// The declared content length of a response: the first
/// `content-length` header's value read as a decimal number, when both
/// exist.
pub open spec fn content_length_of(hs: Seq<(String, Vec<u8>)>) -> Option<int> {
    match first_content_length(hs) {
        None => None,
        Some(v) => parse_usize_bytes(v),
    }
}

/// Whether a header name reads `content-length`, ASCII case aside.
fn is_content_length_name(name: &str) -> (r: bool)
    ensures
        r == (lower_bytes(encode_utf8(name@)) == content_length_name()),
{
    let pattern: Vec<u8> = vec![99, 111, 110, 116, 101, 110, 116, 45, 108, 101, 110, 103, 116, 104];
    assert(pattern@ =~= content_length_name());
    let bytes = name.as_bytes();
    if bytes.len() != 14 {
        proof {
            assert(lower_bytes(encode_utf8(name@)).len() != content_length_name().len());
        }
        return false;
    }
    let mut i: usize = 0;
    while i < 14
        invariant
            0 <= i <= 14,
            bytes@ == encode_utf8(name@),
            bytes@.len() == 14,
            pattern@ == content_length_name(),
            forall|j: int|
                0 <= j < i ==> lower_bytes(encode_utf8(name@))[j] == content_length_name()[j],
        decreases 14 - i,
    {
        let b = bytes[i];
        let low: u8 = if 65 <= b && b <= 90 {
            b + 32
        } else {
            b
        };
        proof {
            assert(lower_bytes(encode_utf8(name@))[i as int] == crate::text::lower_byte(
                bytes@[i as int],
            ));
        }
        if low != pattern[i] {
            return false;
        }
        i = i + 1;
    }
    proof {
        assert(lower_bytes(encode_utf8(name@)) =~= content_length_name());
    }
    true
}

/// Reads the declared content length out of the response headers: the
/// first `content-length` header parsed as a decimal byte count, or
/// `None` when there is none or it does not parse.
pub fn content_length_hint(raw_headers: &Vec<(String, Vec<u8>)>) -> (r: Option<usize>)
    ensures
        r matches Some(n) ==> content_length_of(raw_headers@) == Some(n as int),
        r is None ==> content_length_of(raw_headers@) is None,
{
    let n = raw_headers.len();
    let mut i: usize = 0;
    proof {
        assert(raw_headers@.skip(0) =~= raw_headers@);
    }
    while i < n
        invariant
            0 <= i <= n,
            n == raw_headers@.len(),
            first_content_length(raw_headers@) == first_content_length(
                raw_headers@.skip(i as int),
            ),
        decreases n - i,
    {
        proof {
            assert(raw_headers@.skip(i as int)[0] == raw_headers@[i as int]);
        }
        if is_content_length_name(raw_headers[i].0.as_str()) {
            proof {
                assert(first_content_length(raw_headers@.skip(i as int)) == Some(
                    raw_headers@[i as int].1@,
                ));
            }
            return parse_usize_dec(raw_headers[i].1.as_slice());
        }
        proof {
            assert(raw_headers@.skip(i as int).drop_first() =~= raw_headers@.skip(i + 1));
        }
        i = i + 1;
    }
    proof {
        assert(raw_headers@.skip(n as int) =~= Seq::<(String, Vec<u8>)>::empty());
    }
    None
}

/// Accumulates response-body chunks under an optional byte ceiling.
pub struct BodyReader {
    data: Vec<u8>,
    limit: Option<u64>,
}

impl BodyReader {
    /// The bytes captured so far.
    pub closed spec fn captured(&self) -> Seq<u8> {
        self.data@
    }

    /// The configured ceiling; `None` means unbounded.
    pub closed spec fn size_limit(&self) -> Option<u64> {
        self.limit
    }

    /// The captured bytes never exceed the ceiling.
    pub closed spec fn wf(&self) -> bool {
        match self.limit {
            Some(m) => self.data@.len() <= m,
            None => true,
        }
    }

    /// Whether a chunk of `extra` more bytes still fits under the ceiling.
    pub open spec fn fits(&self, extra: nat) -> bool {
        match self.size_limit() {
            Some(m) => self.captured().len() + extra <= m,
            None => true,
        }
    }

    /// Creates an empty reader with the given ceiling. A declared content
    /// length within the ceiling pre-sizes the buffer; that is only an
    /// allocation hint, and a wrong declared length changes nothing that
    /// this type's contracts speak of.
    pub fn new(max_size: Option<u64>, content_length: Option<usize>) -> (r: BodyReader)
        ensures
            r.captured() == Seq::<u8>::empty(),
            r.size_limit() == max_size,
            r.wf(),
    {
        let cap: usize = match content_length {
            Some(len) => {
                let within: bool = match max_size {
                    Some(m) => len as u64 <= m,
                    None => true,
                };
                if within {
                    len
                } else {
                    0
                }
            },
            None => 0,
        };
        BodyReader { data: Vec::with_capacity(cap), limit: max_size }
    }

    /// Appends one chunk. Succeeds exactly when the accumulated length
    /// stays within the ceiling; otherwise the reader is unchanged and an
    /// `invalid_request` error carries the ceiling in its details.
    pub fn push_chunk(&mut self, chunk: &[u8]) -> (r: Result<(), NativeError>)
        requires
            old(self).wf(),
        ensures
            final(self).wf(),
            final(self).size_limit() == old(self).size_limit(),
            r.is_ok() == old(self).fits(chunk@.len()),
            r.is_ok() ==> final(self).captured() == old(self).captured() + chunk@,
            r matches Err(e) ==> {
                &&& final(self).captured() == old(self).captured()
                &&& e.kind@ == "invalid_request"@
                &&& e.message@ == "response body exceeds max_body_size"@
                &&& e.details matches JsonValue::Object(fields) && fields@.len() == 1
                    && fields@[0].0@ == "limit"@ && fields@[0].1 == JsonValue::Num(
                    old(self).size_limit().unwrap(),
                )
            },
    {
        match self.limit {
            None => {
                self.data.extend_from_slice(chunk);
                Ok(())
            },
            Some(m) => {
                let used = self.data.len() as u64;
                if chunk.len() as u64 > m - used {
                    let mut fields: Vec<(String, JsonValue)> = Vec::new();
                    fields.push(("limit".to_owned(), JsonValue::Num(m)));
                    Err(NativeError::new(
                        "invalid_request",
                        "response body exceeds max_body_size",
                        JsonValue::Object(fields),
                    ))
                } else {
                    self.data.extend_from_slice(chunk);
                    Ok(())
                }
            },
        }
    }

    /// The number of bytes captured so far.
    pub fn len(&self) -> (n: usize)
        ensures
            n == self.captured().len(),
    {
        self.data.len()
    }

    /// Hands the captured body out, consuming the reader.
    pub fn into_bytes(self) -> (r: Vec<u8>)
        ensures
            r@ == self.captured(),
    {
        self.data
    }
}

} // verus!
