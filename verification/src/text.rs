//! Byte-level text helpers: ASCII case folding and whitespace trimming.
//!
//! Cookie headers are handled as raw bytes, so the helpers here work on
//! `u8` sequences rather than on `char`s.

use vstd::prelude::*;

verus! {

/// Lower-cases a single ASCII byte; every other byte is unchanged.
pub open spec fn lower_byte(b: u8) -> u8 {
    if 65 <= b <= 90 {
        (b + 32) as u8
    } else {
        b
    }
}

/// ASCII-lower-cases a byte sequence, byte by byte.
pub open spec fn lower_bytes(s: Seq<u8>) -> Seq<u8> {
    s.map_values(|b: u8| lower_byte(b))
}

/// ASCII whitespace: the bytes that `trim` strips.
pub open spec fn is_space(b: u8) -> bool {
    b == 32 || (9 <= b <= 13)
}

/// A byte sequence with its leading whitespace removed.
pub open spec fn trim_start(s: Seq<u8>) -> Seq<u8>
    decreases s.len(),
{
    if s.len() > 0 && is_space(s[0]) {
        trim_start(s.drop_first())
    } else {
        s
    }
}

/// A byte sequence with its trailing whitespace removed.
pub open spec fn trim_end(s: Seq<u8>) -> Seq<u8>
    decreases s.len(),
{
    if s.len() > 0 && is_space(s[s.len() - 1]) {
        trim_end(s.drop_last())
    } else {
        s
    }
}

/// A byte sequence with whitespace removed from both ends.
pub open spec fn trim(s: Seq<u8>) -> Seq<u8> {
    trim_end(trim_start(s))
}

proof fn lemma_trim_start_skip(s: Seq<u8>, lo: int)
    requires
        0 <= lo < s.len(),
        is_space(s[lo]),
        trim_start(s) == trim_start(s.skip(lo)),
    ensures
        trim_start(s) == trim_start(s.skip(lo + 1)),
{
    assert(s.skip(lo).drop_first() =~= s.skip(lo + 1));
}

proof fn lemma_trim_end_take(s: Seq<u8>, hi: int)
    requires
        0 < hi <= s.len(),
        is_space(s[hi - 1]),
        trim_end(s) == trim_end(s.take(hi)),
    ensures
        trim_end(s) == trim_end(s.take(hi - 1)),
{
    assert(s.take(hi).drop_last() =~= s.take(hi - 1));
}

proof fn lemma_trim_start_stops(s: Seq<u8>, lo: int)
    requires
        0 <= lo <= s.len(),
        lo == s.len() || !is_space(s[lo]),
        trim_start(s) == trim_start(s.skip(lo)),
    ensures
        trim_start(s) == s.skip(lo),
{
}

proof fn lemma_trim_end_stops(s: Seq<u8>, hi: int)
    requires
        0 <= hi <= s.len(),
        hi == 0 || !is_space(s[hi - 1]),
        trim_end(s) == trim_end(s.take(hi)),
    ensures
        trim_end(s) == s.take(hi),
{
}

/// Copies `s` with ASCII whitespace stripped from both ends.
pub fn trim_bytes(s: &[u8]) -> (r: Vec<u8>)
    ensures
        r@ == trim(s@),
{
    let mut lo: usize = 0;
    let mut hi: usize = s.len();
    assert(s@.skip(0) =~= s@);
    while lo < hi && is_space_byte(s[lo])
        invariant
            0 <= lo <= hi <= s@.len(),
            trim_start(s@) == trim_start(s@.skip(lo as int)),
        decreases hi - lo,
    {
        proof {
            lemma_trim_start_skip(s@, lo as int);
        }
        lo = lo + 1;
    }
    proof {
        lemma_trim_start_stops(s@, lo as int);
    }
    // trim_start(s@) == s@.skip(lo); now trim the right end of that suffix.
    let ghost suffix = s@.skip(lo as int);
    assert(suffix.take(hi - lo as int) =~= suffix);
    while hi > lo && is_space_byte(s[hi - 1])
        invariant
            0 <= lo <= hi <= s@.len(),
            suffix == s@.skip(lo as int),
            trim_end(suffix) == trim_end(suffix.take(hi - lo as int)),
        decreases hi - lo,
    {
        proof {
            assert(suffix[hi - lo - 1] == s@[hi - 1]);
            lemma_trim_end_take(suffix, hi - lo as int);
        }
        hi = hi - 1;
    }
    proof {
        if hi > lo {
            assert(suffix[hi - lo - 1] == s@[hi - 1]);
        }
        lemma_trim_end_stops(suffix, hi - lo as int);
        assert(suffix.take(hi - lo as int) =~= s@.subrange(lo as int, hi as int));
    }
    let out = vstd::slice::slice_to_vec(vstd::slice::slice_subrange(s, lo, hi));
    out
}

/// Run-time check matching the `is_space` specification.
pub fn is_space_byte(b: u8) -> (r: bool)
    ensures
        r == is_space(b),
{
    b == 32 || (9 <= b && b <= 13)
}

/// Copies `s` with every ASCII upper-case byte lower-cased.
pub fn lower_vec(s: &[u8]) -> (r: Vec<u8>)
    ensures
        r@ == lower_bytes(s@),
{
    let mut out: Vec<u8> = Vec::with_capacity(s.len());
    let n = s.len();
    let mut i: usize = 0;
    while i < n
        invariant
            n == s@.len(),
            0 <= i <= n,
            out@ =~= lower_bytes(s@).take(i as int),
        decreases n - i,
    {
        let b = s[i];
        if 65 <= b && b <= 90 {
            out.push(b + 32);
        } else {
            out.push(b);
        }
        assert(out@ =~= lower_bytes(s@).take(i + 1));
        i = i + 1;
    }
    assert(lower_bytes(s@).take(n as int) =~= lower_bytes(s@));
    out
}

} // verus!
