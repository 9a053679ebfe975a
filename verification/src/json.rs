//! A small JSON value type and a verified JSON text encoder.
//!
//! Errors carry a structured `details` payload; this module gives that
//! payload a concrete shape and renders it as JSON text (UTF-8 bytes).

use vstd::prelude::*;
use vstd::string::StringSliceAdditionalSpecFns;
use vstd::utf8::encode_utf8;

verus! {

/// A JSON value. Numbers are unsigned integers: that is all the error
/// payloads of this library carry.
#[derive(Debug)]
pub enum JsonValue {
    Null,
    Bool(bool),
    Num(u64),
    Text(String),
    List(Vec<JsonValue>),
    Object(Vec<(String, JsonValue)>),
}

/// Decimal digits of `n`, most significant first.
pub open spec fn dec_bytes(n: nat) -> Seq<u8>
    decreases n,
{
    if n < 10 {
        seq![(48 + n) as u8]
    } else {
        dec_bytes(n / 10).push((48 + n % 10) as u8)
    }
}

/// Lower-case hexadecimal digit for `n < 16`.
pub open spec fn hex_digit(n: u8) -> u8 {
    if n < 10 {
        (48 + n) as u8
    } else {
        (87 + n) as u8
    }
}

/// JSON escaping of one raw UTF-8 byte: quote, backslash and control
/// bytes become escape sequences, every other byte passes through.
pub open spec fn esc_byte(b: u8) -> Seq<u8> {
    if b == 34 {
        seq![92u8, 34u8]
    } else if b == 92 {
        seq![92u8, 92u8]
    } else if b == 8 {
        seq![92u8, 98u8]
    } else if b == 9 {
        seq![92u8, 116u8]
    } else if b == 10 {
        seq![92u8, 110u8]
    } else if b == 12 {
        seq![92u8, 102u8]
    } else if b == 13 {
        seq![92u8, 114u8]
    } else if b < 32 {
        seq![92u8, 117u8, 48u8, 48u8, hex_digit(b / 16), hex_digit(b % 16)]
    } else {
        seq![b]
    }
}

/// JSON escaping of a byte sequence.
pub open spec fn esc_bytes(s: Seq<u8>) -> Seq<u8>
    decreases s.len(),
{
    if s.len() == 0 {
        Seq::empty()
    } else {
        esc_bytes(s.drop_last()) + esc_byte(s.last())
    }
}

/// A JSON string literal: escaped bytes between double quotes.
pub open spec fn quoted(s: Seq<u8>) -> Seq<u8> {
    seq![34u8] + esc_bytes(s) + seq![34u8]
}

/// A JSON string literal holding the UTF-8 encoding of string `s`.
pub open spec fn quoted_str(s: Seq<char>) -> Seq<u8> {
    quoted(encode_utf8(s))
}

/// The JSON text of a value, as UTF-8 bytes.
pub open spec fn json_bytes(v: JsonValue) -> Seq<u8>
    decreases v,
{
    match v {
        JsonValue::Null => seq![110u8, 117u8, 108u8, 108u8],
        JsonValue::Bool(b) => if b {
            seq![116u8, 114u8, 117u8, 101u8]
        } else {
            seq![102u8, 97u8, 108u8, 115u8, 101u8]
        },
        JsonValue::Num(n) => dec_bytes(n as nat),
        JsonValue::Text(s) => quoted_str(s@),
        JsonValue::List(items) => seq![91u8] + join_items(items@) + seq![93u8],
        JsonValue::Object(fields) => seq![123u8] + join_fields(fields@) + seq![125u8],
    }
}

/// Comma-joined JSON texts of list elements.
pub open spec fn join_items(items: Seq<JsonValue>) -> Seq<u8>
    decreases items,
{
    if items.len() == 0 {
        Seq::empty()
    } else if items.len() == 1 {
        json_bytes(items.last())
    } else {
        join_items(items.drop_last()) + seq![44u8] + json_bytes(items.last())
    }
}

/// Comma-joined `"key":value` members of an object.
pub open spec fn join_fields(fields: Seq<(String, JsonValue)>) -> Seq<u8>
    decreases fields,
{
    if fields.len() == 0 {
        Seq::empty()
    } else if fields.len() == 1 {
        member_bytes(fields.last())
    } else {
        join_fields(fields.drop_last()) + seq![44u8] + member_bytes(fields.last())
    }
}

/// One object member: quoted key, colon, value.
pub open spec fn member_bytes(field: (String, JsonValue)) -> Seq<u8>
    decreases field,
{
    quoted_str(field.0@) + seq![58u8] + json_bytes(field.1)
}

/// Appends the decimal digits of `n`.
fn write_u64(n: u64, out: &mut Vec<u8>)
    ensures
        final(out)@ == old(out)@ + dec_bytes(n as nat),
    decreases n,
{
    if n < 10 {
        out.push((48 + n) as u8);
        assert(out@ =~= old(out)@ + dec_bytes(n as nat));
    } else {
        write_u64(n / 10, out);
        out.push((48 + (n % 10)) as u8);
        assert(out@ =~= old(out)@ + dec_bytes(n as nat));
    }
}

/// Appends the JSON escape of one byte.
fn write_escaped_byte(b: u8, out: &mut Vec<u8>)
    ensures
        final(out)@ == old(out)@ + esc_byte(b),
{
    if b == 34 {
        out.push(92);
        out.push(34);
    } else if b == 92 {
        out.push(92);
        out.push(92);
    } else if b == 8 {
        out.push(92);
        out.push(98);
    } else if b == 9 {
        out.push(92);
        out.push(116);
    } else if b == 10 {
        out.push(92);
        out.push(110);
    } else if b == 12 {
        out.push(92);
        out.push(102);
    } else if b == 13 {
        out.push(92);
        out.push(114);
    } else if b < 32 {
        out.push(92);
        out.push(117);
        out.push(48);
        out.push(48);
        let hi = b / 16;
        let lo = b % 16;
        out.push(if hi < 10 { 48 + hi } else { 87 + hi });
        out.push(if lo < 10 { 48 + lo } else { 87 + lo });
    } else {
        out.push(b);
    }
    assert(out@ =~= old(out)@ + esc_byte(b));
}

/// Appends a JSON string literal for the raw UTF-8 bytes `s`.
pub fn write_quoted_bytes(s: &[u8], out: &mut Vec<u8>)
    ensures
        final(out)@ == old(out)@ + quoted(s@),
{
    out.push(34);
    let n = s.len();
    let mut i: usize = 0;
    assert(esc_bytes(s@.take(0)) =~= Seq::<u8>::empty());
    while i < n
        invariant
            0 <= i <= n,
            n == s@.len(),
            out@ == old(out)@ + seq![34u8] + esc_bytes(s@.take(i as int)),
        decreases n - i,
    {
        write_escaped_byte(s[i], out);
        proof {
            assert(s@.take(i + 1).drop_last() =~= s@.take(i as int));
            assert(s@.take(i + 1).last() == s@[i as int]);
        }
        i = i + 1;
    }
    out.push(34);
    proof {
        assert(s@.take(n as int) =~= s@);
        assert(out@ =~= old(out)@ + quoted(s@));
    }
}

/// Appends a JSON string literal for `s`.
fn write_quoted_str(s: &str, out: &mut Vec<u8>)
    ensures
        final(out)@ == old(out)@ + quoted_str(s@),
{
    write_quoted_bytes(s.as_bytes(), out);
}

/// Appends the JSON text of `v`.
pub fn write_json(v: &JsonValue, out: &mut Vec<u8>)
    ensures
        final(out)@ == old(out)@ + json_bytes(*v),
    decreases *v,
{
    match v {
        JsonValue::Null => {
            out.push(110);
            out.push(117);
            out.push(108);
            out.push(108);
            assert(out@ =~= old(out)@ + json_bytes(*v));
        },
        JsonValue::Bool(b) => {
            if *b {
                out.push(116);
                out.push(114);
                out.push(117);
                out.push(101);
            } else {
                out.push(102);
                out.push(97);
                out.push(108);
                out.push(115);
                out.push(101);
            }
            assert(out@ =~= old(out)@ + json_bytes(*v));
        },
        JsonValue::Num(n) => {
            write_u64(*n, out);
        },
        JsonValue::Text(s) => {
            write_quoted_str(s.as_str(), out);
        },
        JsonValue::List(items) => {
            out.push(91);
            let n = items.len();
            let mut i: usize = 0;
            while i < n
                invariant
                    0 <= i <= n,
                    n == items@.len(),
                    *v matches JsonValue::List(its) && its == *items,
                    out@ == old(out)@ + seq![91u8] + join_items(items@.take(i as int)),
                decreases n - i,
            {
                proof {
                    assert(decreases_to!(*v => v->List_0));
                    assert(decreases_to!(v->List_0 => (v->List_0)[i as int]));
                }
                if i > 0 {
                    out.push(44);
                }
                write_json(&items[i], out);
                proof {
                    assert(items@.take(i + 1).drop_last() =~= items@.take(i as int));
                    assert(items@.take(i + 1).last() == items@[i as int]);
                    assert(out@ =~= old(out)@ + seq![91u8] + join_items(items@.take(i + 1)));
                }
                i = i + 1;
            }
            out.push(93);
            proof {
                assert(items@.take(n as int) =~= items@);
                assert(out@ =~= old(out)@ + json_bytes(*v));
            }
        },
        JsonValue::Object(fields) => {
            out.push(123);
            let n = fields.len();
            let mut i: usize = 0;
            while i < n
                invariant
                    0 <= i <= n,
                    n == fields@.len(),
                    *v matches JsonValue::Object(fs) && fs == *fields,
                    out@ == old(out)@ + seq![123u8] + join_fields(fields@.take(i as int)),
                decreases n - i,
            {
                proof {
                    assert(decreases_to!(*v => v->Object_0));
                    assert(decreases_to!(v->Object_0 => (v->Object_0)[i as int]));
                    assert(decreases_to!((v->Object_0)[i as int] => (v->Object_0)[i as int].1));
                }
                if i > 0 {
                    out.push(44);
                }
                write_quoted_str(fields[i].0.as_str(), out);
                out.push(58);
                write_json(&fields[i].1, out);
                proof {
                    assert(fields@.take(i + 1).drop_last() =~= fields@.take(i as int));
                    assert(fields@.take(i + 1).last() == fields@[i as int]);
                    assert(member_bytes(fields@[i as int]) == quoted_str(fields@[i as int].0@)
                        + seq![58u8] + json_bytes(fields@[i as int].1));
                    assert(out@ =~= old(out)@ + seq![123u8] + join_fields(fields@.take(i + 1)));
                }
                i = i + 1;
            }
            out.push(125);
            proof {
                assert(fields@.take(n as int) =~= fields@);
                assert(out@ =~= old(out)@ + json_bytes(*v));
            }
        },
    }
}

/// The JSON text of `v` as a fresh byte vector.
pub fn json_to_bytes(v: &JsonValue) -> (r: Vec<u8>)
    ensures
        r@ == json_bytes(*v),
{
    let mut out: Vec<u8> = Vec::new();
    write_json(v, &mut out);
    out
}

/// An empty JSON object value.
pub fn empty_object() -> (r: JsonValue)
    ensures
        r matches JsonValue::Object(fields) && fields@.len() == 0,
{
    JsonValue::Object(Vec::new())
}

} // verus!
