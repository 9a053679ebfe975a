//! Cookie-domain safety validation.
//!
//! A `Set-Cookie` header may carry a `Domain` attribute that scopes the
//! cookie beyond the responding host. Before such a header is allowed into
//! a cookie jar, its declared domain must be checked: the header must be
//! valid UTF-8, the domain must not itself be a public suffix, and it must
//! match the request host exactly or at a dot label boundary. Host-only
//! cookies (no `Domain` attribute) are always accepted.

use vstd::prelude::*;
use vstd::string::StringSliceAdditionalSpecFns;
use vstd::utf8::valid_utf8;

use crate::text::{lower_bytes, lower_vec, trim, trim_bytes};

verus! {

/// Index of the first `;` in `s`, or `s.len()` when there is none.
pub open spec fn find_semi(s: Seq<u8>) -> int
    decreases s.len(),
{
    if s.len() == 0 {
        0
    } else if s[0] == 59 {
        0
    } else {
        1 + find_semi(s.drop_first())
    }
}

proof fn lemma_find_semi(s: Seq<u8>)
    ensures
        0 <= find_semi(s) <= s.len(),
        find_semi(s) < s.len() ==> s[find_semi(s)] == 59,
        forall|j: int| 0 <= j < find_semi(s) ==> s[j] != 59,
    decreases s.len(),
{
    if s.len() > 0 && s[0] != 59 {
        lemma_find_semi(s.drop_first());
        assert(forall|j: int|
            1 <= j < find_semi(s) ==> s[j] == s.drop_first()[j - 1] && s[j] != 59);
    }
}

/// `find_semi` names the least `;` position, so any scan that stops at the
/// first `;` agrees with it.
proof fn lemma_find_semi_unique(s: Seq<u8>, i: int)
    requires
        0 <= i <= s.len(),
        i < s.len() ==> s[i] == 59,
        forall|j: int| 0 <= j < i ==> s[j] != 59,
    ensures
        find_semi(s) == i,
    decreases s.len(),
{
    lemma_find_semi(s);
    if find_semi(s) < i {
        assert(s[find_semi(s)] == 59);
    } else if i < find_semi(s) {
        assert(s[i] != 59);
    }
}

/// The pieces of `s` delimited by `;`, in order; delimiters are dropped.
pub open spec fn split_semis(s: Seq<u8>) -> Seq<Seq<u8>>
    decreases s.len(),
    via split_semis_decreases
{
    let i = find_semi(s);
    if i >= s.len() {
        seq![s]
    } else {
        seq![s.take(i)] + split_semis(s.skip(i + 1))
    }
}

#[via_fn]
proof fn split_semis_decreases(s: Seq<u8>) {
    lemma_find_semi(s);
}

/// The lower-cased bytes of `domain=`.
pub open spec fn domain_prefix() -> Seq<u8> {
    seq![100u8, 111u8, 109u8, 97u8, 105u8, 110u8, 61u8]
}

/// Whether a trimmed attribute is a `Domain` attribute with a non-empty
/// value: at least one byte after the `=`, attribute name compared
/// case-insensitively.
pub open spec fn is_domain_attr(t: Seq<u8>) -> bool {
    t.len() > 7 && lower_bytes(t.take(7)) == domain_prefix()
}

/// The value of the first `Domain` attribute among the given segments,
/// trimmed; `None` when no segment is a `Domain` attribute.
pub open spec fn first_domain(segs: Seq<Seq<u8>>) -> Option<Seq<u8>>
    decreases segs.len(),
{
    if segs.len() == 0 {
        None
    } else {
        let t = trim(segs[0]);
        if is_domain_attr(t) {
            Some(trim(t.skip(7)))
        } else {
            first_domain(segs.drop_first())
        }
    }
}

/// The `Domain` attribute value of a `Set-Cookie` header, if any.
/// The first `;`-delimited piece is the cookie's `name=value` pair and is
/// never an attribute.
pub open spec fn extract_domain(header: Seq<u8>) -> Option<Seq<u8>> {
    first_domain(split_semis(header).drop_first())
}

/// A cookie domain with a single leading dot removed.
pub open spec fn strip_leading_dot(d: Seq<u8>) -> Seq<u8> {
    if d.len() > 0 && d[0] == 46 {
        d.drop_first()
    } else {
        d
    }
}

/// Whether the declared domain names a registrable domain, as decided by
/// the public suffix list; a bare public suffix (`com`, `co.uk`) does not.
pub uninterp spec fn has_registrable_domain(d: Seq<u8>) -> bool;

/// Relies on `psl::domain`: it returns `Some` exactly when `d` contains a
/// registrable domain, i.e. at least one label below a public suffix, and
/// its answer is a function of `d` alone (a fixed embedded list).
#[verifier::external_body]
fn psl_registrable(d: &[u8]) -> (r: bool)
    ensures
        r == has_registrable_domain(d@),
{
    psl::domain(d).is_some()
}

/// Relies on `core::str::from_utf8`: it succeeds exactly on valid UTF-8,
/// the property vstd's `valid_utf8` states.
#[verifier::external_body]
fn is_utf8(b: &[u8]) -> (r: bool)
    ensures
        r == valid_utf8(b@),
{
    core::str::from_utf8(b).is_ok()
}

/// Whether lower-cased host `h` is scoped under domain `e`: equal, or a
/// strict suffix separated by a dot (a label boundary, so `notexample.com`
/// does not match `example.com`).
pub open spec fn host_matches(h: Seq<u8>, e: Seq<u8>) -> bool {
    h == e || (h.len() > e.len() && h.skip(h.len() - e.len()) == e && h[h.len() - e.len()
        - 1] == 46)
}

/// Whether a raw `Set-Cookie` header is safe to store for a request to
/// `host`: the header must be valid UTF-8; a header without a `Domain`
/// attribute is host-only and always safe; otherwise the normalized domain
/// must be registrable and must match the host at a label boundary.
pub open spec fn cookie_domain_safe(header: Seq<u8>, host: Seq<u8>) -> bool {
    if !valid_utf8(header) {
        false
    } else {
        match extract_domain(header) {
            None => true,
            Some(d) => {
                let e = lower_bytes(strip_leading_dot(d));
                has_registrable_domain(e) && host_matches(lower_bytes(host), e)
            },
        }
    }
}

/// Index of the first `;` at or after the start of `s`.
fn scan_semi(s: &[u8]) -> (i: usize)
    ensures
        i == find_semi(s@),
{
    let n = s.len();
    let mut i: usize = 0;
    while i < n && s[i] != 59
        invariant
            0 <= i <= n,
            n == s@.len(),
            forall|j: int| 0 <= j < i ==> s@[j] != 59,
        decreases n - i,
    {
        i = i + 1;
    }
    proof {
        lemma_find_semi_unique(s@, i as int);
    }
    i
}

/// Whether trimmed attribute bytes start with `domain=` (any case) and
/// carry at least one value byte.
fn is_domain_attr_bytes(t: &[u8]) -> (r: bool)
    ensures
        r == is_domain_attr(t@),
{
    if t.len() <= 7 {
        assert(!is_domain_attr(t@));
        return false;
    }
    assert(lower_bytes(t@.take(7)).take(0) =~= domain_prefix().take(0));
    let mut i: usize = 0;
    let mut ok: bool = true;
    while i < 7
        invariant
            0 <= i <= 7,
            t@.len() > 7,
            ok == (lower_bytes(t@.take(7)).take(i as int) == domain_prefix().take(i as int)),
        decreases 7 - i,
    {
        let b = t[i];
        let low: u8 = if 65 <= b && b <= 90 {
            b + 32
        } else {
            b
        };
        let expect: u8 = if i == 0 {
            100
        } else if i == 1 {
            111
        } else if i == 2 {
            109
        } else if i == 3 {
            97
        } else if i == 4 {
            105
        } else if i == 5 {
            110
        } else {
            61
        };
        proof {
            assert(lower_bytes(t@.take(7))[i as int] == crate::text::lower_byte(t@[i as int]));
            assert(domain_prefix()[i as int] == expect);
            if ok && low == expect {
                assert(lower_bytes(t@.take(7)).take(i + 1) =~= lower_bytes(t@.take(7)).take(
                    i as int,
                ).push(lower_bytes(t@.take(7))[i as int]));
                assert(domain_prefix().take(i + 1) =~= domain_prefix().take(i as int).push(
                    domain_prefix()[i as int]));
            } else {
                if lower_bytes(t@.take(7)).take(i + 1) == domain_prefix().take(i + 1) {
                    assert(lower_bytes(t@.take(7)).take(i + 1)[i as int] == domain_prefix().take(
                        i + 1,
                    )[i as int]);
                    assert(lower_bytes(t@.take(7)).take(i + 1).take(i as int) =~= lower_bytes(
                        t@.take(7),
                    ).take(i as int));
                    assert(domain_prefix().take(i + 1).take(i as int) =~= domain_prefix().take(
                        i as int,
                    ));
                }
            }
        }
        ok = ok && low == expect;
        i = i + 1;
    }
    proof {
        assert(lower_bytes(t@.take(7)).take(7) =~= lower_bytes(t@.take(7)));
        assert(domain_prefix().take(7) =~= domain_prefix());
    }
    ok
}

/// Searches `;`-delimited attribute segments for the first `Domain`
/// attribute and returns its trimmed value.
fn rest_domain(s: &[u8]) -> (r: Option<Vec<u8>>)
    ensures
        r.is_some() == first_domain(split_semis(s@)).is_some(),
        r matches Some(v) ==> first_domain(split_semis(s@)) == Some(v@),
    decreases s@.len(),
{
    let i = scan_semi(s);
    proof {
        lemma_find_semi(s@);
    }
    let seg = vstd::slice::slice_subrange(s, 0, i);
    let t = trim_bytes(seg);
    proof {
        if (i as int) < s@.len() {
            assert(split_semis(s@) == seq![s@.take(i as int)] + split_semis(
                s@.skip(i as int + 1),
            ));
        } else {
            assert(split_semis(s@) =~= seq![s@]);
            assert(s@.take(i as int) =~= s@);
        }
    }
    proof {
        assert(split_semis(s@)[0] == s@.take(i as int));
        assert(t@ == trim(split_semis(s@)[0]));
    }
    if is_domain_attr_bytes(t.as_slice()) {
        let val = trim_bytes(vstd::slice::slice_subrange(t.as_slice(), 7, t.len()));
        proof {
            assert(t@.skip(7) =~= t@.subrange(7, t@.len() as int));
            assert(first_domain(split_semis(s@)) == Some(trim(t@.skip(7))));
        }
        Some(val)
    } else if i == s.len() {
        proof {
            assert(split_semis(s@).drop_first() =~= Seq::<Seq<u8>>::empty());
            assert(first_domain(split_semis(s@)) == first_domain(Seq::<Seq<u8>>::empty()));
        }
        None
    } else {
        let r = rest_domain(vstd::slice::slice_subrange(s, i + 1, s.len()));
        proof {
            assert(s@.skip(i as int + 1) =~= s@.subrange(i as int + 1, s@.len() as int));
            assert(split_semis(s@).drop_first() =~= split_semis(s@.skip(i as int + 1)));
            assert(first_domain(split_semis(s@)) == first_domain(split_semis(s@.skip(i as int + 1))));
        }
        r
    }
}

/// Extracts the trimmed `Domain` attribute value from a `Set-Cookie`
/// header, or `None` when the header sets a host-only cookie.
pub fn extract_cookie_domain(header: &[u8]) -> (r: Option<Vec<u8>>)
    ensures
        r.is_some() == extract_domain(header@).is_some(),
        r matches Some(v) ==> extract_domain(header@) == Some(v@),
{
    let i = scan_semi(header);
    proof {
        lemma_find_semi(header@);
    }
    if i == header.len() {
        proof {
            assert(split_semis(header@) =~= seq![header@]);
            assert(split_semis(header@).drop_first() =~= Seq::<Seq<u8>>::empty());
        }
        None
    } else {
        let r = rest_domain(vstd::slice::slice_subrange(header, i + 1, header.len()));
        proof {
            assert(header@.skip(i as int + 1) =~= header@.subrange(
                i as int + 1,
                header@.len() as int,
            ));
            assert(split_semis(header@) == seq![header@.take(i as int)] + split_semis(
                header@.skip(i as int + 1),
            ));
            assert(split_semis(header@).drop_first() =~= split_semis(header@.skip(i as int + 1)));
        }
        r
    }
}

/// Byte-for-byte equality of two slices.
fn bytes_eq(a: &[u8], b: &[u8]) -> (r: bool)
    ensures
        r == (a@ == b@),
{
    if a.len() != b.len() {
        proof {
            assert(a@.len() != b@.len());
        }
        return false;
    }
    let n = a.len();
    let mut i: usize = 0;
    while i < n
        invariant
            0 <= i <= n,
            n == a@.len() == b@.len(),
            forall|j: int| 0 <= j < i ==> a@[j] == b@[j],
        decreases n - i,
    {
        if a[i] != b[i] {
            return false;
        }
        i = i + 1;
    }
    proof {
        assert(a@ =~= b@);
    }
    true
}

/// Whether lower-cased host bytes `h` match domain bytes `e` exactly or at
/// a dot label boundary.
fn host_matches_bytes(h: &[u8], e: &[u8]) -> (r: bool)
    ensures
        r == host_matches(h@, e@),
{
    if bytes_eq(h, e) {
        return true;
    }
    if h.len() > e.len() {
        let start = h.len() - e.len();
        let tail = vstd::slice::slice_subrange(h, start, h.len());
        proof {
            assert(h@.skip(start as int) =~= h@.subrange(start as int, h@.len() as int));
        }
        bytes_eq(tail, e) && h[start - 1] == 46
    } else {
        false
    }
}

/// Decides whether one `Set-Cookie` header is safe to store for a request
/// whose host is `request_host`, per `cookie_domain_safe`.
pub fn is_cookie_domain_safe(header_bytes: &[u8], request_host: &str) -> (r: bool)
    ensures
        r == cookie_domain_safe(header_bytes@, request_host.spec_bytes()),
{
    if !is_utf8(header_bytes) {
        return false;
    }
    let d = match extract_cookie_domain(header_bytes) {
        None => {
            return true;
        },
        Some(d) => d,
    };
    let stripped: Vec<u8> = if d.len() > 0 && d[0] == 46 {
        let v = vstd::slice::slice_to_vec(vstd::slice::slice_subrange(d.as_slice(), 1, d.len()));
        proof {
            assert(d@.subrange(1, d@.len() as int) =~= d@.drop_first());
        }
        v
    } else {
        d
    };
    let e = lower_vec(stripped.as_slice());
    if !psl_registrable(e.as_slice()) {
        return false;
    }
    let h = lower_vec(request_host.as_bytes());
    host_matches_bytes(h.as_slice(), e.as_slice())
}

/// Host-only cookies are always accepted: a valid-UTF-8 header without a
/// `Domain` attribute is safe for every request host.
pub proof fn lemma_host_only_always_safe(header: Seq<u8>, host: Seq<u8>)
    requires
        valid_utf8(header),
        extract_domain(header) is None,
    ensures
        cookie_domain_safe(header, host),
{
}

/// A cookie declaring a domain that the public suffix list says has no
/// registrable domain (for example a bare public suffix such as `com` or
/// `co.uk`) is rejected, whatever the request host.
pub proof fn lemma_public_suffix_never_safe(header: Seq<u8>, host: Seq<u8>)
    requires
        extract_domain(header) matches Some(d) && !has_registrable_domain(
            lower_bytes(strip_leading_dot(d)),
        ),
    ensures
        !cookie_domain_safe(header, host),
{
}

/// For a registrable declared domain in a valid header, safety holds if
/// and only if the lower-cased request host equals the normalized domain
/// or ends with it directly after a dot.
pub proof fn lemma_safe_iff_label_boundary_match(header: Seq<u8>, host: Seq<u8>)
    requires
        valid_utf8(header),
        extract_domain(header) matches Some(d) && has_registrable_domain(
            lower_bytes(strip_leading_dot(d)),
        ),
    ensures
        cookie_domain_safe(header, host) <==> host_matches(
            lower_bytes(host),
            lower_bytes(strip_leading_dot(extract_domain(header).unwrap())),
        ),
{
}

} // verus!
