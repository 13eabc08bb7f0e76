//! Reading a span back out of its wire document.
//!
//! The encoder in [`crate::wire`] frames one exact byte layout; this
//! module gives that layout a mathematical reader and proves the round
//! trip: decoding the document produced for a span recovers the span's
//! identity, name, timestamps and status, for every span. Nothing here
//! runs; the reader is specification, the theorem is the point.

use vstd::prelude::*;
use vstd::utf8::{
    decode_utf8, encode_scalar, encode_utf8, has_width_1_encoding, leading_byte_width_1,
};
use crate::span::MapleSpan;
use crate::text;
use crate::wire::{
    spec_attr_json, spec_attr_list, spec_escape_byte, spec_escape_bytes, spec_json_string,
    spec_span_json, spec_status_message,
};

verus! {

broadcast use vstd::seq::group_seq_axioms;

/// Whether a byte is a lowercase hexadecimal digit.
pub open spec fn is_hex_byte(b: u8) -> bool {
    (0x30 <= b <= 0x39) || (0x61 <= b <= 0x66)
}

/// The value of a lowercase hexadecimal digit byte.
pub open spec fn hex_val(b: u8) -> int {
    if 0x30 <= b <= 0x39 {
        b - 0x30
    } else if 0x61 <= b <= 0x66 {
        b - 0x61 + 10
    } else {
        0
    }
}

/// The byte a short escape letter stands for; quote and backslash stand
/// for themselves.
pub open spec fn spec_unescape_short(e: u8) -> u8 {
    if e == 0x62 { 0x08 }
    else if e == 0x74 { 0x09 }
    else if e == 0x6e { 0x0a }
    else if e == 0x66 { 0x0c }
    else if e == 0x72 { 0x0d }
    else { e }
}

/// Consuming an exact literal: the position just past it, when the
/// document carries it at `pos`.
pub open spec fn spec_expect(doc: Seq<u8>, pos: int, lit: Seq<u8>) -> Option<int> {
    if 0 <= pos && pos + lit.len() <= doc.len() && doc.subrange(pos, pos + lit.len()) == lit {
        Some(pos + lit.len())
    } else {
        None
    }
}

/// Reading a JSON string body from just after its opening quote:
/// unescaped content bytes and the position past the closing quote.
pub open spec fn spec_scan_string(doc: Seq<u8>, pos: int) -> Option<(Seq<u8>, int)>
    decreases doc.len() - pos,
{
    if pos < 0 || pos >= doc.len() {
        None
    } else if doc[pos] == 0x22 {
        Some((Seq::<u8>::empty(), pos + 1))
    } else if doc[pos] == 0x5c {
        if pos + 1 >= doc.len() {
            None
        } else {
            let e = doc[pos + 1];
            if e == 0x22 || e == 0x5c || e == 0x62 || e == 0x74 || e == 0x6e || e == 0x66 || e
                == 0x72 {
                match spec_scan_string(doc, pos + 2) {
                    Some(p) => Some((seq![spec_unescape_short(e)] + p.0, p.1)),
                    None => None,
                }
            } else if e == 0x75 {
                if pos + 6 <= doc.len() && doc[pos + 2] == 0x30 && doc[pos + 3] == 0x30
                    && is_hex_byte(doc[pos + 4]) && is_hex_byte(doc[pos + 5]) {
                    match spec_scan_string(doc, pos + 6) {
                        Some(p) => Some(
                            (
                                seq![(hex_val(doc[pos + 4]) * 16 + hex_val(doc[pos + 5])) as u8]
                                    + p.0,
                                p.1,
                            ),
                        ),
                        None => None,
                    }
                } else {
                    None
                }
            } else {
                None
            }
        }
    } else {
        match spec_scan_string(doc, pos + 1) {
            Some(p) => Some((seq![doc[pos]] + p.0, p.1)),
            None => None,
        }
    }
}

/// Scanning undoes escaping: where the document carries the escape of
/// `content`, a closing quote and anything after, the scanner returns
/// exactly `content` and stops just past that quote.
pub proof fn lemma_scan_escaped(doc: Seq<u8>, pos: int, content: Seq<u8>, tail: Seq<u8>)
    requires
        0 <= pos <= doc.len(),
        doc.skip(pos) == spec_escape_bytes(content) + seq![0x22u8] + tail,
    ensures
        spec_scan_string(doc, pos) == Some(
            (content, pos + spec_escape_bytes(content).len() + 1),
        ),
    decreases content.len(),
{
    let esc = spec_escape_bytes(content);
    let suffix = doc.skip(pos);
    assert(suffix.len() == doc.len() - pos);
    if content.len() == 0 {
        assert(esc =~= Seq::<u8>::empty());
        assert(suffix[0] == 0x22u8);
        assert(doc[pos] == suffix[0]);
    } else {
        let b = content[0];
        let rest = content.drop_first();
        assert(esc == spec_escape_byte(b) + spec_escape_bytes(rest));
        let eb = spec_escape_byte(b);
        let k = eb.len();
        assert(1 <= k <= 6);
        assert forall|i: int| 0 <= i < k implies doc[pos + i] == eb[i] by {
            assert(doc[pos + i] == suffix[i]);
            assert(suffix[i] == esc[i]);
            assert(esc[i] == eb[i]);
        }
        let target = spec_escape_bytes(rest) + seq![0x22u8] + tail;
        assert(doc.skip(pos + k).len() == target.len());
        assert forall|i: int| 0 <= i < target.len() implies doc.skip(pos + k)[i] == target[i] by {
            assert(doc.skip(pos + k)[i] == doc[pos + k + i]);
            assert(doc[pos + k + i] == suffix[k + i]);
            if k + i < esc.len() {
                assert(suffix[k + i] == esc[k + i]);
                assert(esc[k + i] == spec_escape_bytes(rest)[i]);
                assert(target[i] == spec_escape_bytes(rest)[i]);
            } else if k + i == esc.len() {
                assert(suffix[k + i] == 0x22u8);
                assert(target[i] == 0x22u8);
            } else {
                assert(suffix[k + i] == tail[k + i - esc.len() - 1]);
                assert(target[i] == tail[i - spec_escape_bytes(rest).len() - 1]);
            }
        }
        assert(doc.skip(pos + k) =~= target);
        lemma_scan_escaped(doc, pos + k, rest, tail);
        assert(seq![b] + rest =~= content);
        if b == 0x22 || b == 0x5c {
            assert(eb =~= seq![0x5cu8, b]);
            assert(doc[pos] == 0x5c && doc[pos + 1] == b);
            assert(spec_unescape_short(b) == b);
        } else if b == 0x08 || b == 0x09 || b == 0x0a || b == 0x0c || b == 0x0d {
            let e = eb[1];
            assert(doc[pos] == 0x5c && doc[pos + 1] == e);
            assert(spec_unescape_short(e) == b);
        } else if b < 0x20 {
            assert(eb == seq![
                0x5cu8,
                0x75u8,
                0x30u8,
                0x30u8,
                crate::wire::spec_hex_byte(b >> 4),
                crate::wire::spec_hex_byte(b & 0xf),
            ]);
            assert((b >> 4) < 16 && (b & 0xf) < 16) by (bit_vector);
            let hi = b >> 4;
            let lo = b & 0xf;
            assert(is_hex_byte(crate::wire::spec_hex_byte(hi)));
            assert(is_hex_byte(crate::wire::spec_hex_byte(lo)));
            assert(hex_val(crate::wire::spec_hex_byte(hi)) == hi);
            assert(hex_val(crate::wire::spec_hex_byte(lo)) == lo);
            assert((b >> 4) * 16 + (b & 0xf) == b) by (bit_vector);
            assert(doc[pos] == 0x5c && doc[pos + 1] == 0x75 && doc[pos + 2] == 0x30 && doc[pos
                + 3] == 0x30);
        } else {
            assert(eb =~= seq![b]);
            assert(doc[pos] == b);
            assert(b != 0x22 && b != 0x5c);
        }
    }
}

/// Splitting a suffix: where the document carries `a + b` at `pos`, the
/// subrange at `pos` is `a` and the suffix past it is `b`.
pub proof fn lemma_skip_split(doc: Seq<u8>, pos: int, a: Seq<u8>, b: Seq<u8>)
    requires
        0 <= pos <= doc.len(),
        doc.skip(pos) == a + b,
    ensures
        pos + a.len() <= doc.len(),
        doc.subrange(pos, pos + a.len()) == a,
        doc.skip(pos + a.len()) == b,
        spec_expect(doc, pos, a) == Some(pos + a.len()),
{
    let suffix = doc.skip(pos);
    assert(suffix.len() == doc.len() - pos);
    assert forall|i: int| 0 <= i < a.len() implies doc.subrange(pos, pos + a.len())[i] == a[i] by {
        assert(doc.subrange(pos, pos + a.len())[i] == doc[pos + i]);
        assert(doc[pos + i] == suffix[i]);
    }
    assert(doc.subrange(pos, pos + a.len()) =~= a);
    assert forall|i: int| 0 <= i < b.len() implies doc.skip(pos + a.len())[i] == b[i] by {
        assert(doc.skip(pos + a.len())[i] == doc[pos + a.len() + i]);
        assert(doc[pos + a.len() + i] == suffix[a.len() + i]);
        assert(suffix[a.len() + i] == b[i]);
    }
    assert(doc.skip(pos + a.len()) =~= b);
}

/// Reading a whole JSON string token from its opening quote.
pub open spec fn spec_scan_jstring(doc: Seq<u8>, pos: int) -> Option<(Seq<u8>, int)> {
    if 0 <= pos < doc.len() && doc[pos] == 0x22 {
        spec_scan_string(doc, pos + 1)
    } else {
        None
    }
}

/// Scanning a string token undoes [`spec_json_string`]: the content
/// bytes come back exactly and the scan stops past the closing quote.
pub proof fn lemma_scan_jstring(doc: Seq<u8>, pos: int, chars: Seq<char>, tail: Seq<u8>)
    requires
        0 <= pos <= doc.len(),
        doc.skip(pos) == spec_json_string(chars) + tail,
    ensures
        spec_scan_jstring(doc, pos) == Some(
            (encode_utf8(chars), pos + spec_json_string(chars).len()),
        ),
        doc.skip(pos + spec_json_string(chars).len()) == tail,
    decreases chars.len(),
{
    let content = encode_utf8(chars);
    let esc = spec_escape_bytes(content);
    assert(spec_json_string(chars) == seq![0x22u8] + esc + seq![0x22u8]);
    let suffix = doc.skip(pos);
    assert(suffix.len() == doc.len() - pos);
    assert(suffix[0] == 0x22u8);
    assert(doc[pos] == suffix[0]);
    assert(seq![0x22u8] + (esc + seq![0x22u8] + tail) =~= spec_json_string(chars) + tail);
    lemma_skip_split(doc, pos, seq![0x22u8], esc + seq![0x22u8] + tail);
    lemma_scan_escaped(doc, pos + 1, content, tail);
    lemma_skip_split(doc, pos, spec_json_string(chars), tail);
}

/// Whether a byte is a decimal digit.
pub open spec fn is_digit_byte(b: u8) -> bool {
    0x30 <= b <= 0x39
}

/// The longest run of digit bytes from `pos`, and the position past it.
pub open spec fn spec_scan_digits(doc: Seq<u8>, pos: int) -> (Seq<u8>, int)
    decreases doc.len() - pos,
{
    if 0 <= pos < doc.len() && is_digit_byte(doc[pos]) {
        let r = spec_scan_digits(doc, pos + 1);
        (seq![doc[pos]] + r.0, r.1)
    } else {
        (Seq::<u8>::empty(), pos)
    }
}

/// The digit scan stops exactly at the first non-digit.
pub proof fn lemma_scan_digits(doc: Seq<u8>, pos: int, ds: Seq<u8>, tail: Seq<u8>)
    requires
        0 <= pos <= doc.len(),
        doc.skip(pos) == ds + tail,
        forall|i: int| 0 <= i < ds.len() ==> is_digit_byte(#[trigger] ds[i]),
        tail.len() > 0,
        !is_digit_byte(tail[0]),
    ensures
        spec_scan_digits(doc, pos) == (ds, pos + ds.len()),
    decreases ds.len(),
{
    let suffix = doc.skip(pos);
    assert(suffix.len() == doc.len() - pos);
    if ds.len() == 0 {
        assert(doc[pos] == suffix[0]);
        assert(suffix[0] == tail[0]);
    } else {
        assert(doc[pos] == suffix[0]);
        assert(suffix[0] == ds[0]);
        assert(is_digit_byte(doc[pos]));
        let rest = ds.drop_first();
        assert(seq![ds[0]] + (rest + tail) =~= ds + tail);
        lemma_skip_split(doc, pos, seq![ds[0]], rest + tail);
        lemma_scan_digits(doc, pos + 1, rest, tail);
        assert(seq![ds[0]] + rest =~= ds);
    }
}

/// A decimal integer: an optional minus sign and at least one digit.
pub open spec fn spec_scan_int(doc: Seq<u8>, pos: int) -> Option<(Seq<u8>, int)> {
    if 0 <= pos < doc.len() && doc[pos] == 0x2d {
        let r = spec_scan_digits(doc, pos + 1);
        if r.0.len() > 0 {
            Some((seq![0x2du8] + r.0, r.1))
        } else {
            None
        }
    } else {
        let r = spec_scan_digits(doc, pos);
        if r.0.len() > 0 {
            Some(r)
        } else {
            None
        }
    }
}

/// The meaning of integer text: an optional minus sign and digits.
pub open spec fn spec_parse_int(s: Seq<char>) -> Option<int> {
    if s.len() > 1 && s[0] == '-' && text::all_digit_chars(s.skip(1)) {
        Some(-text::spec_dec_val(s.skip(1)))
    } else if s.len() > 0 && text::all_digit_chars(s) {
        Some(text::spec_dec_val(s))
    } else {
        None
    }
}

/// The decimal rendering of an integer consists of ASCII characters.
pub proof fn lemma_dec_chars_signed_ascii(n: int)
    ensures
        vstd::utf8::is_ascii_chars(text::spec_dec_chars_signed(n)),
        text::spec_dec_chars_signed(n).len() > 0,
{
    if n < 0 {
        text::lemma_dec_chars_all_digits(-n);
        let s = text::spec_dec_chars_signed(n);
        assert(s == seq!['-'] + text::spec_dec_chars(-n));
        assert forall|i: int| 0 <= i < s.len() implies '\0' <= #[trigger] s[i] <= '\u{7f}' by {
            if i > 0 {
                assert(text::is_digit_char(text::spec_dec_chars(-n)[i - 1]));
                assert(s[i] == text::spec_dec_chars(-n)[i - 1]);
            }
        }
    } else {
        text::lemma_dec_chars_all_digits(n);
        let s = text::spec_dec_chars_signed(n);
        assert forall|i: int| 0 <= i < s.len() implies '\0' <= #[trigger] s[i] <= '\u{7f}' by {
            assert(text::is_digit_char(s[i]));
        }
    }
}

/// Parsing inverts signed rendering.
pub proof fn lemma_parse_int_roundtrip(n: int)
    ensures
        spec_parse_int(text::spec_dec_chars_signed(n)) == Some(n),
{
    if n < 0 {
        text::lemma_dec_chars_all_digits(-n);
        text::lemma_dec_val_of_chars(-n);
        let s = text::spec_dec_chars_signed(n);
        assert(s == seq!['-'] + text::spec_dec_chars(-n));
        assert(s.skip(1) =~= text::spec_dec_chars(-n));
        assert(s[0] == '-');
    } else {
        text::lemma_dec_chars_all_digits(n);
        text::lemma_dec_val_of_chars(n);
        let s = text::spec_dec_chars_signed(n);
        assert(s == text::spec_dec_chars(n));
        if s.len() > 1 && s[0] == '-' {
            assert(text::is_digit_char(s[0]));
            assert(false);
        }
    }
}

/// Reading the integer text the encoder wrote: where the document
/// carries the signed decimal rendering of `n` followed by a non-digit,
/// the scan returns exactly that text.
pub proof fn lemma_scan_int(doc: Seq<u8>, pos: int, n: int, tail: Seq<u8>)
    requires
        0 <= pos <= doc.len(),
        doc.skip(pos) == encode_utf8(text::spec_dec_chars_signed(n)) + tail,
        tail.len() > 0,
        !is_digit_byte(tail[0]),
    ensures
        spec_scan_int(doc, pos) == Some(
            (
                encode_utf8(text::spec_dec_chars_signed(n)),
                pos + encode_utf8(text::spec_dec_chars_signed(n)).len(),
            ),
        ),
        doc.skip(pos + encode_utf8(text::spec_dec_chars_signed(n)).len()) == tail,
{
    broadcast use vstd::utf8::is_ascii_chars_encode_utf8;

    let s = text::spec_dec_chars_signed(n);
    let bs = encode_utf8(s);
    lemma_dec_chars_signed_ascii(n);
    assert(bs.len() == s.len());
    let suffix = doc.skip(pos);
    assert(suffix.len() == doc.len() - pos);
    if n < 0 {
        text::lemma_dec_chars_all_digits(-n);
        assert(s == seq!['-'] + text::spec_dec_chars(-n));
        assert(s[0] == '-');
        assert(bs[0] == '-' as u8);
        assert(doc[pos] == suffix[0]);
        assert(suffix[0] == bs[0]);
        assert(doc[pos] == 0x2d);
        let ds = bs.drop_first();
        assert forall|i: int| 0 <= i < ds.len() implies is_digit_byte(#[trigger] ds[i]) by {
            assert(ds[i] == bs[i + 1]);
            assert(bs[i + 1] == s[i + 1] as u8);
            assert(s[i + 1] == text::spec_dec_chars(-n)[i]);
            assert(text::is_digit_char(s[i + 1]));
        }
        assert(seq![0x2du8] + (ds + tail) =~= bs + tail);
        lemma_skip_split(doc, pos, seq![0x2du8], ds + tail);
        lemma_scan_digits(doc, pos + 1, ds, tail);
        assert(ds.len() > 0);
        assert(seq![0x2du8] + ds =~= bs);
        lemma_skip_split(doc, pos, bs, tail);
    } else {
        text::lemma_dec_chars_all_digits(n);
        assert(s == text::spec_dec_chars(n));
        assert forall|i: int| 0 <= i < bs.len() implies is_digit_byte(#[trigger] bs[i]) by {
            assert(bs[i] == s[i] as u8);
            assert(text::is_digit_char(s[i]));
        }
        assert(doc[pos] == suffix[0]);
        assert(suffix[0] == bs[0]);
        assert(bs.len() > 0 && is_digit_byte(bs[0]));
        assert(doc[pos] != 0x2d);
        lemma_scan_digits(doc, pos, bs, tail);
        lemma_skip_split(doc, pos, bs, tail);
    }
}

/// The first byte of the UTF-8 encoding of an ASCII-led string.
pub proof fn lemma_enc_first_byte(s: Seq<char>)
    requires
        s.len() > 0,
        '\0' <= s[0] <= '\u{7f}',
    ensures
        encode_utf8(s).len() >= 1,
        encode_utf8(s)[0] == leading_byte_width_1(s[0] as u32),
{
    broadcast use vstd::utf8::char_is_scalar;

    assert(encode_utf8(s) == encode_scalar(s[0] as u32) + encode_utf8(s.drop_first()));
    let v = s[0] as u32;
    assert(v <= 0x7f);
    assert(has_width_1_encoding(v));
    assert(encode_scalar(v) == seq![leading_byte_width_1(v)]);
}

/// The encoding of a comma is the single comma byte.
pub proof fn lemma_comma_bytes()
    ensures
        encode_utf8(","@) == seq![0x2cu8],
{
    reveal_strlit(",");
    let s = ","@;
    assert(s.len() == 1);
    assert(s[0] == ',');
    assert(s.drop_first() =~= Seq::<char>::empty());
    assert(encode_utf8(Seq::<char>::empty()) =~= Seq::<u8>::empty());
    assert(encode_utf8(s) == encode_scalar(s[0] as u32) + encode_utf8(s.drop_first()));
    assert(',' as u32 == 0x2c);
    assert(has_width_1_encoding(0x2c));
    assert(encode_scalar(0x2c) == seq![leading_byte_width_1(0x2c)]);
    assert(0x2cu32 & 0x7f == 0x2c) by (bit_vector);
    assert(leading_byte_width_1(0x2c) == 0x2cu8);
    assert(encode_utf8(s) =~= seq![0x2cu8]);
}

/// One whole attribute object: its shape is fixed, its content ignored.
pub open spec fn spec_skip_attr(doc: Seq<u8>, pos: int) -> Option<int> {
    match spec_expect(doc, pos, encode_utf8("{\"key\":"@)) {
        Some(p1) => match spec_scan_jstring(doc, p1) {
            Some(k) => match spec_expect(doc, k.1, encode_utf8(",\"value\":{\"stringValue\":"@)) {
                Some(p3) => match spec_scan_jstring(doc, p3) {
                    Some(v) => spec_expect(doc, v.1, encode_utf8("}}"@)),
                    None => None,
                },
                None => None,
            },
            None => None,
        },
        None => None,
    }
}

/// Skipping consumes exactly one encoded attribute.
pub proof fn lemma_skip_attr(doc: Seq<u8>, pos: int, key: Seq<char>, val: Seq<char>, tail: Seq<u8>)
    requires
        0 <= pos <= doc.len(),
        doc.skip(pos) == spec_attr_json(key, val) + tail,
    ensures
        spec_skip_attr(doc, pos) == Some(pos + spec_attr_json(key, val).len()),
        doc.skip(pos + spec_attr_json(key, val).len()) == tail,
{
    let l1 = encode_utf8("{\"key\":"@);
    let l2 = encode_utf8(",\"value\":{\"stringValue\":"@);
    let l3 = encode_utf8("}}"@);
    let jk = spec_json_string(key);
    let jv = spec_json_string(val);
    let aj = spec_attr_json(key, val);
    assert(aj == l1 + jk + l2 + jv + l3);
    assert(doc.skip(pos) =~= l1 + (jk + (l2 + (jv + (l3 + tail)))));
    lemma_skip_split(doc, pos, l1, jk + (l2 + (jv + (l3 + tail))));
    let p1 = pos + l1.len();
    lemma_scan_jstring(doc, p1, key, l2 + (jv + (l3 + tail)));
    let p2 = p1 + jk.len();
    lemma_skip_split(doc, p2, l2, jv + (l3 + tail));
    let p3 = p2 + l2.len();
    lemma_scan_jstring(doc, p3, val, l3 + tail);
    let p4 = p3 + jv.len();
    lemma_skip_split(doc, p4, l3, tail);
    assert(p4 + l3.len() == pos + aj.len());
}

/// A comma-separated run of attribute objects, ending at the closing
/// bracket; the fuel bounds the number of attributes read.
pub open spec fn spec_skip_attr_list(doc: Seq<u8>, pos: int, fuel: nat) -> Option<int>
    decreases fuel,
{
    if 0 <= pos < doc.len() && doc[pos] == 0x5d {
        Some(pos)
    } else if fuel == 0 {
        None
    } else {
        match spec_skip_attr(doc, pos) {
            Some(q) => {
                if 0 <= q < doc.len() && doc[q] == 0x2c {
                    spec_skip_attr_list(doc, q + 1, (fuel - 1) as nat)
                } else if 0 <= q < doc.len() && doc[q] == 0x5d {
                    Some(q)
                } else {
                    None
                }
            },
            None => None,
        }
    }
}

/// The attribute list read front to first: one entry, then a comma and
/// the rest.
pub proof fn lemma_attr_list_front(attrs: Seq<(Seq<char>, Seq<char>)>)
    requires
        attrs.len() >= 1,
    ensures
        spec_attr_list(attrs) == spec_attr_json(attrs[0].0, attrs[0].1) + (if attrs.len() == 1 {
            Seq::<u8>::empty()
        } else {
            encode_utf8(","@) + spec_attr_list(attrs.drop_first())
        }),
    decreases attrs.len(),
{
    if attrs.len() == 1 {
        assert(spec_attr_list(attrs) == spec_attr_json(attrs[0].0, attrs[0].1));
        assert(spec_attr_json(attrs[0].0, attrs[0].1) + Seq::<u8>::empty() =~= spec_attr_json(
            attrs[0].0,
            attrs[0].1,
        ));
    } else {
        let dl = attrs.drop_last();
        assert(dl[0] == attrs[0]);
        lemma_attr_list_front(dl);
        let a0 = spec_attr_json(attrs[0].0, attrs[0].1);
        let comma = encode_utf8(","@);
        let last = spec_attr_json(attrs.last().0, attrs.last().1);
        assert(spec_attr_list(attrs) == spec_attr_list(dl) + comma + last);
        let df = attrs.drop_first();
        if attrs.len() == 2 {
            assert(spec_attr_list(dl) == a0 + Seq::<u8>::empty());
            assert(df.len() == 1);
            assert(df[0] == attrs[1]);
            assert(attrs.last() == attrs[1]);
            assert(spec_attr_list(df) == spec_attr_json(df[0].0, df[0].1));
            assert(spec_attr_list(attrs) =~= a0 + (comma + spec_attr_list(df)));
        } else {
            assert(spec_attr_list(dl) == a0 + (comma + spec_attr_list(dl.drop_first())));
            assert(df.len() >= 2);
            assert(df.drop_last() =~= dl.drop_first());
            assert(df.last() == attrs.last());
            assert(spec_attr_list(df) == spec_attr_list(df.drop_last()) + comma + spec_attr_json(
                df.last().0,
                df.last().1,
            ));
            assert(spec_attr_list(attrs) =~= a0 + (comma + spec_attr_list(df)));
        }
    }
}

/// Every attribute contributes at least one byte to the list.
pub proof fn lemma_attr_list_len(attrs: Seq<(Seq<char>, Seq<char>)>)
    ensures
        spec_attr_list(attrs).len() >= attrs.len(),
    decreases attrs.len(),
{
    if attrs.len() > 0 {
        lemma_attr_list_len(attrs.drop_last());
        reveal_strlit("{\"key\":");
        assert("{\"key\":"@[0] == '{');
        lemma_enc_first_byte("{\"key\":"@);
        if attrs.len() == 1 {
            assert(spec_attr_list(attrs) == spec_attr_json(attrs[0].0, attrs[0].1));
        }
    }
}

/// Skipping the attribute section consumes exactly the encoded list and
/// stops at the closing bracket.
pub proof fn lemma_skip_attr_list(
    doc: Seq<u8>,
    pos: int,
    attrs: Seq<(Seq<char>, Seq<char>)>,
    rest: Seq<u8>,
    fuel: nat,
)
    requires
        0 <= pos <= doc.len(),
        doc.skip(pos) == spec_attr_list(attrs) + rest,
        rest.len() > 0,
        rest[0] == 0x5du8,
        fuel >= attrs.len(),
    ensures
        spec_skip_attr_list(doc, pos, fuel) == Some(pos + spec_attr_list(attrs).len()),
        doc.skip(pos + spec_attr_list(attrs).len()) == rest,
    decreases attrs.len(),
{
    let suffix = doc.skip(pos);
    assert(suffix.len() == doc.len() - pos);
    reveal_strlit("{\"key\":");
    lemma_enc_first_byte("{\"key\":"@);
    assert("{\"key\":"@[0] == '{');
    assert('{' as u32 == 0x7b);
    assert(0x7bu32 & 0x7f == 0x7b) by (bit_vector);
    assert(encode_utf8("{\"key\":"@)[0] == 0x7bu8);
    if attrs.len() == 0 {
        assert(spec_attr_list(attrs) =~= Seq::<u8>::empty());
        assert(doc.skip(pos) =~= rest);
        assert(doc[pos] == suffix[0]);
        assert(doc[pos] == 0x5du8);
    } else {
        lemma_attr_list_front(attrs);
        let aj = spec_attr_json(attrs[0].0, attrs[0].1);
        assert(aj[0] == encode_utf8("{\"key\":"@)[0]);
        assert(doc[pos] == suffix[0]);
        assert(suffix[0] == aj[0]);
        assert(doc[pos] == 0x7bu8);
        assert(doc[pos] != 0x5du8);
        if attrs.len() == 1 {
            assert(spec_attr_list(attrs) =~= aj);
            lemma_skip_attr(doc, pos, attrs[0].0, attrs[0].1, rest);
            let q = pos + aj.len();
            assert(doc.skip(q) == rest);
            assert(doc.skip(q).len() == doc.len() - q);
            assert(doc[q] == doc.skip(q)[0]);
            assert(doc[q] == 0x5du8);
        } else {
            let comma = encode_utf8(","@);
            lemma_comma_bytes();
            let df = attrs.drop_first();
            let rtail = comma + (spec_attr_list(df) + rest);
            assert(doc.skip(pos) =~= aj + rtail);
            lemma_skip_attr(doc, pos, attrs[0].0, attrs[0].1, rtail);
            let q = pos + aj.len();
            assert(doc.skip(q) == rtail);
            assert(doc.skip(q).len() == doc.len() - q);
            assert(doc[q] == doc.skip(q)[0]);
            assert(rtail[0] == 0x2cu8);
            assert(doc[q] == 0x2cu8);
            assert(doc[q] != 0x5du8);
            assert(rtail =~= comma + (spec_attr_list(df) + rest));
            lemma_skip_split(doc, q, comma, spec_attr_list(df) + rest);
            assert(comma.len() == 1);
            lemma_skip_attr_list(doc, q + 1, df, rest, (fuel - 1) as nat);
            assert(pos + spec_attr_list(attrs).len() == q + 1 + spec_attr_list(df).len());
        }
    }
}

/// What decoding a span document recovers.
pub struct DecodedSpan {
    pub name: Seq<char>,
    pub parent_span_id: Seq<char>,
    pub span_id: Seq<char>,
    pub trace_id: Seq<char>,
    pub start_time_unix_nano: u64,
    pub end_time_unix_nano: u64,
    pub kind: int,
    pub status_code: int,
    pub status_message: Seq<char>,
}

/// Reads one span object as the encoder frames it: fixed keys in sorted
/// order, quoted decimal timestamps, numeric kind and status code, and
/// nothing after the closing brace.
pub open spec fn spec_decode_span_json(doc: Seq<u8>) -> Option<DecodedSpan> {
    match spec_expect(doc, 0, encode_utf8("{\"attributes\":["@)) {
        Some(p1) => match spec_skip_attr_list(doc, p1, doc.len()) {
            Some(p2) => match spec_expect(doc, p2, encode_utf8("],\"endTimeUnixNano\":\""@)) {
                Some(p3) => match spec_scan_int(doc, p3) {
                    Some(endt) => match spec_expect(doc, endt.1, encode_utf8("\",\"kind\":"@)) {
                        Some(p4) => match spec_scan_int(doc, p4) {
                            Some(kindt) => match spec_expect(
                                doc,
                                kindt.1,
                                encode_utf8(",\"name\":"@),
                            ) {
                                Some(p5) => match spec_scan_jstring(doc, p5) {
                                    Some(namet) => match spec_expect(
                                        doc,
                                        namet.1,
                                        encode_utf8(",\"parentSpanId\":"@),
                                    ) {
                                        Some(p6) => match spec_scan_jstring(doc, p6) {
                                            Some(part) => match spec_expect(
                                                doc,
                                                part.1,
                                                encode_utf8(",\"spanId\":"@),
                                            ) {
                                                Some(p7) => match spec_scan_jstring(doc, p7) {
                                                    Some(spant) => spec_decode_span_rest(
                                                        doc,
                                                        spant.1,
                                                        endt.0,
                                                        kindt.0,
                                                        namet.0,
                                                        part.0,
                                                        spant.0,
                                                    ),
                                                    None => None,
                                                },
                                                None => None,
                                            },
                                            None => None,
                                        },
                                        None => None,
                                    },
                                    None => None,
                                },
                                None => None,
                            },
                            None => None,
                        },
                        None => None,
                    },
                    None => None,
                },
                None => None,
            },
            None => None,
        },
        None => None,
    }
}

/// The back half of the span grammar: start time, status, trace id.
pub open spec fn spec_decode_span_rest(
    doc: Seq<u8>,
    pos: int,
    end_text: Seq<u8>,
    kind_text: Seq<u8>,
    name_text: Seq<u8>,
    parent_text: Seq<u8>,
    span_id_text: Seq<u8>,
) -> Option<DecodedSpan> {
    match spec_expect(doc, pos, encode_utf8(",\"startTimeUnixNano\":\""@)) {
        Some(p8) => match spec_scan_int(doc, p8) {
            Some(startt) => match spec_expect(
                doc,
                startt.1,
                encode_utf8("\",\"status\":{\"code\":"@),
            ) {
                Some(p9) => match spec_scan_int(doc, p9) {
                    Some(codet) => match spec_expect(doc, codet.1, encode_utf8(",\"message\":"@)) {
                        Some(p10) => match spec_scan_jstring(doc, p10) {
                            Some(msgt) => match spec_expect(
                                doc,
                                msgt.1,
                                encode_utf8("},\"traceId\":"@),
                            ) {
                                Some(p11) => match spec_scan_jstring(doc, p11) {
                                    Some(tracet) => match spec_expect(
                                        doc,
                                        tracet.1,
                                        encode_utf8("}"@),
                                    ) {
                                        Some(pe) => if pe == doc.len() {
                                            spec_decoded_fields(
                                                end_text,
                                                kind_text,
                                                name_text,
                                                parent_text,
                                                span_id_text,
                                                startt.0,
                                                codet.0,
                                                msgt.0,
                                                tracet.0,
                                            )
                                        } else {
                                            None
                                        },
                                        None => None,
                                    },
                                    None => None,
                                },
                                None => None,
                            },
                            None => None,
                        },
                        None => None,
                    },
                    None => None,
                },
                None => None,
            },
            None => None,
        },
        None => None,
    }
}

/// The decoded fields, once every token is in hand: the timestamps must
/// read as decimal `u64` values and the numeric fields as integers.
pub open spec fn spec_decoded_fields(
    end_text: Seq<u8>,
    kind_text: Seq<u8>,
    name_text: Seq<u8>,
    parent_text: Seq<u8>,
    span_id_text: Seq<u8>,
    start_text: Seq<u8>,
    code_text: Seq<u8>,
    message_text: Seq<u8>,
    trace_text: Seq<u8>,
) -> Option<DecodedSpan> {
    match (
        text::spec_parse_u64(decode_utf8(start_text)),
        text::spec_parse_u64(decode_utf8(end_text)),
        spec_parse_int(decode_utf8(kind_text)),
        spec_parse_int(decode_utf8(code_text)),
    ) {
        (Some(st), Some(en), Some(kd), Some(cd)) => Some(
            DecodedSpan {
                name: decode_utf8(name_text),
                parent_span_id: decode_utf8(parent_text),
                span_id: decode_utf8(span_id_text),
                trace_id: decode_utf8(trace_text),
                start_time_unix_nano: st,
                end_time_unix_nano: en,
                kind: kd,
                status_code: cd,
                status_message: decode_utf8(message_text),
            },
        ),
        _ => None,
    }
}

/// Concatenation re-association, one step.
pub proof fn lemma_assoc(a: Seq<u8>, b: Seq<u8>, c: Seq<u8>)
    ensures
        (a + b) + c == a + (b + c),
{
    assert((a + b) + c =~= a + (b + c));
}

/// The back half of the round trip: from the start-time key on, the
/// reader recovers the start time, status and trace identifier.
#[verifier::rlimit(100)]
pub proof fn lemma_decode_rest_roundtrip(
    doc: Seq<u8>,
    pos: int,
    s: MapleSpan,
    end_text: Seq<u8>,
    kind_text: Seq<u8>,
    name_text: Seq<u8>,
    parent_text: Seq<u8>,
    span_id_text: Seq<u8>,
)
    requires
        0 <= pos <= doc.len(),
        doc.skip(pos) == encode_utf8(",\"startTimeUnixNano\":\""@) + (encode_utf8(
            text::spec_dec_chars(s.start_time_unix_nano as int),
        ) + (encode_utf8("\",\"status\":{\"code\":"@) + (encode_utf8(
            text::spec_dec_chars_signed(s.status_code as int),
        ) + (encode_utf8(",\"message\":"@) + (spec_json_string(spec_status_message(s))
            + (encode_utf8("},\"traceId\":"@) + (spec_json_string(s.trace_id@) + encode_utf8(
            "}"@,
        )))))))),
        end_text == encode_utf8(text::spec_dec_chars(s.end_time_unix_nano as int)),
        kind_text == encode_utf8(text::spec_dec_chars_signed(s.kind as int)),
        name_text == encode_utf8(s.name@),
        parent_text == encode_utf8(s.parent_span_id@),
        span_id_text == encode_utf8(s.span_id@),
    ensures
        spec_decode_span_rest(doc, pos, end_text, kind_text, name_text, parent_text, span_id_text)
            matches Some(d) && d.trace_id == s.trace_id@ && d.span_id == s.span_id@
            && d.parent_span_id == s.parent_span_id@ && d.name == s.name@
            && d.start_time_unix_nano == s.start_time_unix_nano && d.end_time_unix_nano
            == s.end_time_unix_nano && d.kind == s.kind as int && d.status_code == s.status_code
            as int && d.status_message == spec_status_message(s),
{
    broadcast use vstd::utf8::encode_utf8_decode_utf8;

    let g13 = encode_utf8(",\"startTimeUnixNano\":\""@);
    let g14 = encode_utf8(text::spec_dec_chars(s.start_time_unix_nano as int));
    let g15 = encode_utf8("\",\"status\":{\"code\":"@);
    let g16 = encode_utf8(text::spec_dec_chars_signed(s.status_code as int));
    let g17 = encode_utf8(",\"message\":"@);
    let g18 = spec_json_string(spec_status_message(s));
    let g19 = encode_utf8("},\"traceId\":"@);
    let g20 = spec_json_string(s.trace_id@);
    let g21 = encode_utf8("}"@);
    let r21 = g21;
    let r20 = g20 + r21;
    let r19 = g19 + r20;
    let r18 = g18 + r19;
    let r17 = g17 + r18;
    let r16 = g16 + r17;
    let r15 = g15 + r16;
    let r14 = g14 + r15;

    reveal_strlit("\",\"status\":{\"code\":");
    assert("\",\"status\":{\"code\":"@[0] == '"');
    lemma_enc_first_byte("\",\"status\":{\"code\":"@);
    assert('"' as u32 == 0x22);
    assert(0x22u32 & 0x7f == 0x22) by (bit_vector);
    assert(g15[0] == 0x22u8);
    reveal_strlit(",\"message\":");
    assert(",\"message\":"@[0] == ',');
    lemma_enc_first_byte(",\"message\":"@);
    assert(',' as u32 == 0x2c);
    assert(0x2cu32 & 0x7f == 0x2c) by (bit_vector);
    assert(g17[0] == 0x2cu8);

    lemma_skip_split(doc, pos, g13, r14);
    let p13 = pos + g13.len();
    assert(text::spec_dec_chars_signed(s.start_time_unix_nano as int) == text::spec_dec_chars(
        s.start_time_unix_nano as int,
    ));
    assert(r15.len() > 0 && r15[0] == g15[0]);
    assert(!is_digit_byte(0x22u8));
    lemma_scan_int(doc, p13, s.start_time_unix_nano as int, r15);
    let p14 = p13 + g14.len();
    lemma_skip_split(doc, p14, g15, r16);
    let p15 = p14 + g15.len();
    assert(r17.len() > 0 && r17[0] == g17[0]);
    assert(!is_digit_byte(0x2cu8));
    lemma_scan_int(doc, p15, s.status_code as int, r17);
    let p16 = p15 + g16.len();
    lemma_skip_split(doc, p16, g17, r18);
    let p17 = p16 + g17.len();
    lemma_scan_jstring(doc, p17, spec_status_message(s), r19);
    let p18 = p17 + g18.len();
    lemma_skip_split(doc, p18, g19, r20);
    let p19 = p18 + g19.len();
    lemma_scan_jstring(doc, p19, s.trace_id@, r21);
    let p20 = p19 + g20.len();
    assert(g21 + Seq::<u8>::empty() =~= r21);
    lemma_skip_split(doc, p20, g21, Seq::<u8>::empty());
    let pe = p20 + g21.len();
    assert(doc.skip(pe).len() == 0);
    assert(pe == doc.len());

    text::lemma_dec_roundtrip(s.start_time_unix_nano);
    text::lemma_dec_roundtrip(s.end_time_unix_nano);
    lemma_parse_int_roundtrip(s.kind as int);
    lemma_parse_int_roundtrip(s.status_code as int);
}

/// The encoder's left-leaning concatenation, re-read in suffix form.
#[verifier::rlimit(100)]
pub proof fn lemma_span_json_assoc(s: MapleSpan)
    ensures
        spec_span_json(s) == encode_utf8("{\"attributes\":["@) + (spec_attr_list(crate::span::attr_views(s.attributes@)) + (encode_utf8("],\"endTimeUnixNano\":\""@) + (encode_utf8(text::spec_dec_chars(s.end_time_unix_nano as int)) + (encode_utf8("\",\"kind\":"@) + (encode_utf8(text::spec_dec_chars_signed(s.kind as int)) + (encode_utf8(",\"name\":"@) + (spec_json_string(s.name@) + (encode_utf8(",\"parentSpanId\":"@) + (spec_json_string(s.parent_span_id@) + (encode_utf8(",\"spanId\":"@) + (spec_json_string(s.span_id@) + (encode_utf8(",\"startTimeUnixNano\":\""@) + (encode_utf8(text::spec_dec_chars(s.start_time_unix_nano as int)) + (encode_utf8("\",\"status\":{\"code\":"@) + (encode_utf8(text::spec_dec_chars_signed(s.status_code as int)) + (encode_utf8(",\"message\":"@) + (spec_json_string(spec_status_message(s)) + (encode_utf8("},\"traceId\":"@) + (spec_json_string(s.trace_id@) + (encode_utf8("}"@))))))))))))))))))))),
{
    let doc = spec_span_json(s);
    let attrs = crate::span::attr_views(s.attributes@);
    let g1 = encode_utf8("{\"attributes\":["@);
    let g2 = spec_attr_list(attrs);
    let g3 = encode_utf8("],\"endTimeUnixNano\":\""@);
    let g4 = encode_utf8(text::spec_dec_chars(s.end_time_unix_nano as int));
    let g5 = encode_utf8("\",\"kind\":"@);
    let g6 = encode_utf8(text::spec_dec_chars_signed(s.kind as int));
    let g7 = encode_utf8(",\"name\":"@);
    let g8 = spec_json_string(s.name@);
    let g9 = encode_utf8(",\"parentSpanId\":"@);
    let g10 = spec_json_string(s.parent_span_id@);
    let g11 = encode_utf8(",\"spanId\":"@);
    let g12 = spec_json_string(s.span_id@);
    let g13 = encode_utf8(",\"startTimeUnixNano\":\""@);
    let g14 = encode_utf8(text::spec_dec_chars(s.start_time_unix_nano as int));
    let g15 = encode_utf8("\",\"status\":{\"code\":"@);
    let g16 = encode_utf8(text::spec_dec_chars_signed(s.status_code as int));
    let g17 = encode_utf8(",\"message\":"@);
    let g18 = spec_json_string(spec_status_message(s));
    let g19 = encode_utf8("},\"traceId\":"@);
    let g20 = spec_json_string(s.trace_id@);
    let g21 = encode_utf8("}"@);
    let r21 = g21;
    let r20 = g20 + r21;
    let r19 = g19 + r20;
    let r18 = g18 + r19;
    let r17 = g17 + r18;
    let r16 = g16 + r17;
    let r15 = g15 + r16;
    let r14 = g14 + r15;
    let r13 = g13 + r14;
    let r12 = g12 + r13;
    let r11 = g11 + r12;
    let r10 = g10 + r11;
    let r9 = g9 + r10;
    let r8 = g8 + r9;
    let r7 = g7 + r8;
    let r6 = g6 + r7;
    let r5 = g5 + r6;
    let r4 = g4 + r5;
    let r3 = g3 + r4;
    let r2 = g2 + r3;
    let l1 = g1;
    let l2 = l1 + g2;
    let l3 = l2 + g3;
    let l4 = l3 + g4;
    let l5 = l4 + g5;
    let l6 = l5 + g6;
    let l7 = l6 + g7;
    let l8 = l7 + g8;
    let l9 = l8 + g9;
    let l10 = l9 + g10;
    let l11 = l10 + g11;
    let l12 = l11 + g12;
    let l13 = l12 + g13;
    let l14 = l13 + g14;
    let l15 = l14 + g15;
    let l16 = l15 + g16;
    let l17 = l16 + g17;
    let l18 = l17 + g18;
    let l19 = l18 + g19;
    let l20 = l19 + g20;
    assert(doc == l20 + g21);
    lemma_assoc(l19, g20, r21);
    lemma_assoc(l18, g19, r20);
    lemma_assoc(l17, g18, r19);
    lemma_assoc(l16, g17, r18);
    lemma_assoc(l15, g16, r17);
    lemma_assoc(l14, g15, r16);
    lemma_assoc(l13, g14, r15);
    lemma_assoc(l12, g13, r14);
    lemma_assoc(l11, g12, r13);
    lemma_assoc(l10, g11, r12);
    lemma_assoc(l9, g10, r11);
    lemma_assoc(l8, g9, r10);
    lemma_assoc(l7, g8, r9);
    lemma_assoc(l6, g7, r8);
    lemma_assoc(l5, g6, r7);
    lemma_assoc(l4, g5, r6);
    lemma_assoc(l3, g4, r5);
    lemma_assoc(l2, g3, r4);
    lemma_assoc(l1, g2, r3);
    assert(doc == g1 + r2);
}

/// Decoding inverts encoding: reading the document produced for any
/// span recovers its trace identifier, span identifier, name, both
/// timestamps as the unsigned integers behind their string form, and
/// its status code and message.
#[verifier::rlimit(100)]
pub proof fn lemma_span_json_roundtrip(s: MapleSpan)
    ensures
        spec_decode_span_json(spec_span_json(s)) matches Some(d) && d.trace_id == s.trace_id@
            && d.span_id == s.span_id@ && d.parent_span_id == s.parent_span_id@ && d.name
            == s.name@ && d.start_time_unix_nano == s.start_time_unix_nano
            && d.end_time_unix_nano == s.end_time_unix_nano && d.kind == s.kind as int
            && d.status_code == s.status_code as int && d.status_message == spec_status_message(s),
{
    broadcast use vstd::utf8::encode_utf8_decode_utf8;

    let doc = spec_span_json(s);
    let attrs = crate::span::attr_views(s.attributes@);
    let g1 = encode_utf8("{\"attributes\":["@);
    let g2 = spec_attr_list(attrs);
    let g3 = encode_utf8("],\"endTimeUnixNano\":\""@);
    let g4 = encode_utf8(text::spec_dec_chars(s.end_time_unix_nano as int));
    let g5 = encode_utf8("\",\"kind\":"@);
    let g6 = encode_utf8(text::spec_dec_chars_signed(s.kind as int));
    let g7 = encode_utf8(",\"name\":"@);
    let g8 = spec_json_string(s.name@);
    let g9 = encode_utf8(",\"parentSpanId\":"@);
    let g10 = spec_json_string(s.parent_span_id@);
    let g11 = encode_utf8(",\"spanId\":"@);
    let g12 = spec_json_string(s.span_id@);
    let g13 = encode_utf8(",\"startTimeUnixNano\":\""@);
    let g14 = encode_utf8(text::spec_dec_chars(s.start_time_unix_nano as int));
    let g15 = encode_utf8("\",\"status\":{\"code\":"@);
    let g16 = encode_utf8(text::spec_dec_chars_signed(s.status_code as int));
    let g17 = encode_utf8(",\"message\":"@);
    let g18 = spec_json_string(spec_status_message(s));
    let g19 = encode_utf8("},\"traceId\":"@);
    let g20 = spec_json_string(s.trace_id@);
    let g21 = encode_utf8("}"@);

    let r21 = g21;
    let r20 = g20 + r21;
    let r19 = g19 + r20;
    let r18 = g18 + r19;
    let r17 = g17 + r18;
    let r16 = g16 + r17;
    let r15 = g15 + r16;
    let r14 = g14 + r15;
    let r13 = g13 + r14;
    let r12 = g12 + r13;
    let r11 = g11 + r12;
    let r10 = g10 + r11;
    let r9 = g9 + r10;
    let r8 = g8 + r9;
    let r7 = g7 + r8;
    let r6 = g6 + r7;
    let r5 = g5 + r6;
    let r4 = g4 + r5;
    let r3 = g3 + r4;
    let r2 = g2 + r3;
    lemma_span_json_assoc(s);
    assert(doc == g1 + r2);
    assert(doc.skip(0) =~= doc);

    reveal_strlit("],\"endTimeUnixNano\":\"");
    assert("],\"endTimeUnixNano\":\""@[0] == ']');
    lemma_enc_first_byte("],\"endTimeUnixNano\":\""@);
    assert(']' as u32 == 0x5d);
    assert(0x5du32 & 0x7f == 0x5d) by (bit_vector);
    assert(g3[0] == 0x5du8);
    reveal_strlit("\",\"kind\":");
    assert("\",\"kind\":"@[0] == '"');
    lemma_enc_first_byte("\",\"kind\":"@);
    assert('"' as u32 == 0x22);
    assert(0x22u32 & 0x7f == 0x22) by (bit_vector);
    assert(g5[0] == 0x22u8);
    reveal_strlit(",\"name\":");
    assert(",\"name\":"@[0] == ',');
    lemma_enc_first_byte(",\"name\":"@);
    assert(',' as u32 == 0x2c);
    assert(0x2cu32 & 0x7f == 0x2c) by (bit_vector);
    assert(g7[0] == 0x2cu8);

    lemma_skip_split(doc, 0, g1, r2);
    let p1 = g1.len() as int;
    assert(r3[0] == g3[0]);
    lemma_attr_list_len(attrs);
    assert(doc.len() >= attrs.len());
    lemma_skip_attr_list(doc, p1, attrs, r3, doc.len());
    let p2 = p1 + g2.len();
    lemma_skip_split(doc, p2, g3, r4);
    let p3 = p2 + g3.len();
    assert(text::spec_dec_chars_signed(s.end_time_unix_nano as int) == text::spec_dec_chars(
        s.end_time_unix_nano as int,
    ));
    assert(r5.len() > 0 && r5[0] == g5[0]);
    assert(!is_digit_byte(0x22u8));
    lemma_scan_int(doc, p3, s.end_time_unix_nano as int, r5);
    let p4 = p3 + g4.len();
    lemma_skip_split(doc, p4, g5, r6);
    let p5 = p4 + g5.len();
    assert(r7.len() > 0 && r7[0] == g7[0]);
    assert(!is_digit_byte(0x2cu8));
    lemma_scan_int(doc, p5, s.kind as int, r7);
    let p6 = p5 + g6.len();
    lemma_skip_split(doc, p6, g7, r8);
    let p7 = p6 + g7.len();
    lemma_scan_jstring(doc, p7, s.name@, r9);
    let p8 = p7 + g8.len();
    lemma_skip_split(doc, p8, g9, r10);
    let p9 = p8 + g9.len();
    lemma_scan_jstring(doc, p9, s.parent_span_id@, r11);
    let p10 = p9 + g10.len();
    lemma_skip_split(doc, p10, g11, r12);
    let p11 = p10 + g11.len();
    lemma_scan_jstring(doc, p11, s.span_id@, r13);
    let p12 = p11 + g12.len();
    lemma_decode_rest_roundtrip(
        doc,
        p12,
        s,
        g4,
        g6,
        encode_utf8(s.name@),
        encode_utf8(s.parent_span_id@),
        encode_utf8(s.span_id@),
    );
}

} // verus!
