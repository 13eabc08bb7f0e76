//! The OTLP-style JSON wire encoding of a span batch.
//!
//! The payload layout is part of the compatibility surface of the
//! ingestion backend, so the document is framed here byte for byte:
//! object keys in sorted order, string-typed attribute values, nanosecond
//! timestamps as decimal strings, and JSON string escaping of `"`, `\`
//! and control characters. The contracts state the exact byte sequence
//! produced for every span and configuration.

use vstd::prelude::*;
use vstd::string::StringSliceAdditionalSpecFns;
use vstd::utf8::encode_utf8;
use crate::config::MapleExporterConfig;
use crate::span::{attr_views, MapleSpan};
use crate::text;

verus! {

/// The byte of one lowercase hexadecimal digit value.
pub open spec fn spec_hex_byte(d: u8) -> u8 {
    crate::ids::spec_hex_digit_char(d as int) as u8
}

/// The JSON escape of one byte of string content. Multi-byte UTF-8
/// sequences pass through unchanged byte by byte, since all their bytes
/// are at least 0x80.
pub open spec fn spec_escape_byte(b: u8) -> Seq<u8> {
    if b == 0x22 {
        seq![0x5cu8, 0x22u8]
    } else if b == 0x5c {
        seq![0x5cu8, 0x5cu8]
    } else if b == 0x08 {
        seq![0x5cu8, 0x62u8]
    } else if b == 0x09 {
        seq![0x5cu8, 0x74u8]
    } else if b == 0x0a {
        seq![0x5cu8, 0x6eu8]
    } else if b == 0x0c {
        seq![0x5cu8, 0x66u8]
    } else if b == 0x0d {
        seq![0x5cu8, 0x72u8]
    } else if b < 0x20 {
        seq![0x5cu8, 0x75u8, 0x30u8, 0x30u8, spec_hex_byte(b >> 4), spec_hex_byte(b & 0xf)]
    } else {
        seq![b]
    }
}

/// The JSON escape of a whole byte string.
pub open spec fn spec_escape_bytes(s: Seq<u8>) -> Seq<u8>
    decreases s.len(),
{
    if s.len() == 0 {
        Seq::<u8>::empty()
    } else {
        spec_escape_byte(s[0]) + spec_escape_bytes(s.drop_first())
    }
}

/// Escaping a byte string one byte longer appends that byte's escape.
pub proof fn lemma_escape_bytes_push(s: Seq<u8>, b: u8)
    ensures
        spec_escape_bytes(s.push(b)) == spec_escape_bytes(s) + spec_escape_byte(b),
    decreases s.len(),
{
    if s.len() == 0 {
        assert(s.push(b)[0] == b);
        assert(s.push(b).drop_first() =~= Seq::<u8>::empty());
        assert(spec_escape_bytes(Seq::<u8>::empty()) =~= Seq::<u8>::empty());
        assert(spec_escape_bytes(s.push(b)) =~= spec_escape_byte(b));
        assert(spec_escape_bytes(s) + spec_escape_byte(b) =~= spec_escape_byte(b));
    } else {
        assert(s.push(b)[0] == s[0]);
        assert(s.push(b).drop_first() =~= s.drop_first().push(b));
        lemma_escape_bytes_push(s.drop_first(), b);
        assert(spec_escape_bytes(s.push(b)) =~= spec_escape_bytes(s) + spec_escape_byte(b));
    }
}

/// A JSON string token: quote, escaped UTF-8 content, quote.
pub open spec fn spec_json_string(s: Seq<char>) -> Seq<u8> {
    seq![0x22u8] + spec_escape_bytes(encode_utf8(s)) + seq![0x22u8]
}

fn hex_digit_byte(d: u8) -> (r: u8)
    requires
        d < 16,
    ensures
        r == spec_hex_byte(d),
{
    if d < 10 {
        48 + d
    } else {
        87 + d
    }
}

/// Appends the UTF-8 bytes of a string.
pub fn push_lit(out: &mut Vec<u8>, s: &str)
    ensures
        final(out)@ == old(out)@ + encode_utf8(s@),
{
    let bs = s.as_bytes();
    let n = bs.len();
    let mut i: usize = 0;
    proof {
        assert(out@ =~= old(out)@ + bs@.take(0));
    }
    while i < n
        invariant
            0 <= i <= n == bs@.len(),
            bs@ == encode_utf8(s@),
            out@ == old(out)@ + bs@.take(i as int),
        decreases n - i,
    {
        out.push(bs[i]);
        proof {
            assert(bs@.take(i as int).push(bs@[i as int]) =~= bs@.take(i as int + 1));
            assert(out@ =~= old(out)@ + bs@.take(i as int + 1));
        }
        i += 1;
    }
    proof {
        assert(bs@.take(n as int) =~= bs@);
    }
}

/// Appends the escape of one byte of string content.
fn push_escaped_byte(out: &mut Vec<u8>, b: u8)
    ensures
        final(out)@ == old(out)@ + spec_escape_byte(b),
{
    if b == 0x22 {
        out.push(0x5c);
        out.push(0x22);
    } else if b == 0x5c {
        out.push(0x5c);
        out.push(0x5c);
    } else if b == 0x08 {
        out.push(0x5c);
        out.push(0x62);
    } else if b == 0x09 {
        out.push(0x5c);
        out.push(0x74);
    } else if b == 0x0a {
        out.push(0x5c);
        out.push(0x6e);
    } else if b == 0x0c {
        out.push(0x5c);
        out.push(0x66);
    } else if b == 0x0d {
        out.push(0x5c);
        out.push(0x72);
    } else if b < 0x20 {
        proof {
            assert((b >> 4) < 16 && (b & 0xf) < 16) by (bit_vector);
        }
        out.push(0x5c);
        out.push(0x75);
        out.push(0x30);
        out.push(0x30);
        out.push(hex_digit_byte(b >> 4));
        out.push(hex_digit_byte(b & 0xf));
    } else {
        out.push(b);
    }
    proof {
        assert(out@ =~= old(out)@ + spec_escape_byte(b));
    }
}

/// Appends a JSON string token for `s`.
pub fn push_json_string(out: &mut Vec<u8>, s: &str)
    ensures
        final(out)@ == old(out)@ + spec_json_string(s@),
{
    out.push(0x22);
    let bs = s.as_bytes();
    let n = bs.len();
    let mut i: usize = 0;
    proof {
        assert(spec_escape_bytes(bs@.take(0)) =~= Seq::<u8>::empty());
        assert(out@ =~= old(out)@ + seq![0x22u8] + spec_escape_bytes(bs@.take(0)));
    }
    while i < n
        invariant
            0 <= i <= n == bs@.len(),
            bs@ == encode_utf8(s@),
            out@ == old(out)@ + seq![0x22u8] + spec_escape_bytes(bs@.take(i as int)),
        decreases n - i,
    {
        push_escaped_byte(out, bs[i]);
        proof {
            assert(bs@.take(i as int).push(bs@[i as int]) =~= bs@.take(i as int + 1));
            lemma_escape_bytes_push(bs@.take(i as int), bs@[i as int]);
            assert(out@ =~= old(out)@ + seq![0x22u8] + spec_escape_bytes(bs@.take(i as int + 1)));
        }
        i += 1;
    }
    out.push(0x22);
    proof {
        assert(bs@.take(n as int) =~= bs@);
        assert(out@ =~= old(out)@ + spec_json_string(s@));
    }
}

/// Appends the decimal rendering of a `u64`.
fn push_u64_text(out: &mut Vec<u8>, n: u64)
    ensures
        final(out)@ == old(out)@ + encode_utf8(text::spec_dec_chars(n as int)),
{
    let s = text::u64_to_dec_string(n);
    push_lit(out, s.as_str());
}

/// Appends the decimal rendering of an `i32`.
fn push_i32_text(out: &mut Vec<u8>, n: i32)
    ensures
        final(out)@ == old(out)@ + encode_utf8(text::spec_dec_chars_signed(n as int)),
{
    let s = text::i64_to_dec_string(n as i64);
    push_lit(out, s.as_str());
}

/// One attribute object: `{"key":K,"value":{"stringValue":V}}`.
pub open spec fn spec_attr_json(key: Seq<char>, val: Seq<char>) -> Seq<u8> {
    encode_utf8("{\"key\":"@) + spec_json_string(key) + encode_utf8(
        ",\"value\":{\"stringValue\":"@,
    ) + spec_json_string(val) + encode_utf8("}}"@)
}

/// A comma-separated list of attribute objects.
pub open spec fn spec_attr_list(attrs: Seq<(Seq<char>, Seq<char>)>) -> Seq<u8>
    decreases attrs.len(),
{
    if attrs.len() == 0 {
        Seq::<u8>::empty()
    } else if attrs.len() == 1 {
        spec_attr_json(attrs[0].0, attrs[0].1)
    } else {
        spec_attr_list(attrs.drop_last()) + encode_utf8(","@) + spec_attr_json(
            attrs.last().0,
            attrs.last().1,
        )
    }
}

/// Appends one attribute object.
fn push_attr(out: &mut Vec<u8>, key: &str, val: &str)
    ensures
        final(out)@ == old(out)@ + spec_attr_json(key@, val@),
{
    push_lit(out, "{\"key\":");
    push_json_string(out, key);
    push_lit(out, ",\"value\":{\"stringValue\":");
    push_json_string(out, val);
    push_lit(out, "}}");
    proof {
        assert(out@ =~= old(out)@ + spec_attr_json(key@, val@));
    }
}

/// Appends the comma-separated attribute list.
fn push_attr_list(out: &mut Vec<u8>, attrs: &Vec<(String, String)>)
    ensures
        final(out)@ == old(out)@ + spec_attr_list(attr_views(attrs@)),
{
    let n = attrs.len();
    let mut i: usize = 0;
    proof {
        assert(attr_views(attrs@).take(0) =~= Seq::<(Seq<char>, Seq<char>)>::empty());
        assert(out@ =~= old(out)@ + spec_attr_list(attr_views(attrs@).take(0)));
    }
    while i < n
        invariant
            0 <= i <= n == attrs@.len(),
            out@ == old(out)@ + spec_attr_list(attr_views(attrs@).take(i as int)),
        decreases n - i,
    {
        if i > 0 {
            push_lit(out, ",");
        }
        push_attr(out, attrs[i].0.as_str(), attrs[i].1.as_str());
        proof {
            let av = attr_views(attrs@);
            assert(av[i as int] == (attrs@[i as int].0@, attrs@[i as int].1@));
            assert(av.take(i as int + 1).drop_last() =~= av.take(i as int));
            assert(av.take(i as int + 1).last() == av[i as int]);
            if i == 0 {
                assert(spec_attr_list(av.take(1)) == spec_attr_json(av[0].0, av[0].1));
                assert(out@ =~= old(out)@ + spec_attr_list(av.take(i as int + 1)));
            } else {
                assert(spec_attr_list(av.take(i as int + 1)) == spec_attr_list(av.take(i as int))
                    + encode_utf8(","@) + spec_attr_json(av[i as int].0, av[i as int].1));
                assert(out@ =~= old(out)@ + spec_attr_list(av.take(i as int + 1)));
            }
        }
        i += 1;
    }
    proof {
        assert(attr_views(attrs@).take(n as int) =~= attr_views(attrs@));
    }
}

/// The status message text a span carries on the wire: the message when
/// present, else empty.
pub open spec fn spec_status_message(s: MapleSpan) -> Seq<char> {
    match s.status_message {
        Some(m) => m@,
        None => Seq::<char>::empty(),
    }
}

/// One span object, keys in sorted order, timestamps as decimal strings.
pub open spec fn spec_span_json(s: MapleSpan) -> Seq<u8> {
    encode_utf8("{\"attributes\":["@) + spec_attr_list(attr_views(s.attributes@)) + encode_utf8(
        "],\"endTimeUnixNano\":\""@,
    ) + encode_utf8(text::spec_dec_chars(s.end_time_unix_nano as int)) + encode_utf8(
        "\",\"kind\":"@,
    ) + encode_utf8(text::spec_dec_chars_signed(s.kind as int)) + encode_utf8(",\"name\":"@)
        + spec_json_string(s.name@) + encode_utf8(",\"parentSpanId\":"@) + spec_json_string(
        s.parent_span_id@,
    ) + encode_utf8(",\"spanId\":"@) + spec_json_string(s.span_id@) + encode_utf8(
        ",\"startTimeUnixNano\":\""@,
    ) + encode_utf8(text::spec_dec_chars(s.start_time_unix_nano as int)) + encode_utf8(
        "\",\"status\":{\"code\":"@,
    ) + encode_utf8(text::spec_dec_chars_signed(s.status_code as int)) + encode_utf8(
        ",\"message\":"@,
    ) + spec_json_string(spec_status_message(s)) + encode_utf8("},\"traceId\":"@)
        + spec_json_string(s.trace_id@) + encode_utf8("}"@)
}

/// Appends one span object.
#[verifier::rlimit(100)]
pub fn push_span_json(out: &mut Vec<u8>, s: &MapleSpan)
    ensures
        final(out)@ == old(out)@ + spec_span_json(*s),
{
    let ghost mut acc: Seq<u8> = Seq::<u8>::empty();
    proof {
        assert(out@ =~= old(out)@ + acc);
    }
    push_lit(out, "{\"attributes\":[");
    proof {
        acc = acc + encode_utf8("{\"attributes\":["@);
        assert(out@ =~= old(out)@ + acc);
    }
    push_attr_list(out, &s.attributes);
    proof {
        acc = acc + spec_attr_list(attr_views(s.attributes@));
        assert(out@ =~= old(out)@ + acc);
    }
    push_lit(out, "],\"endTimeUnixNano\":\"");
    proof {
        acc = acc + encode_utf8("],\"endTimeUnixNano\":\""@);
        assert(out@ =~= old(out)@ + acc);
    }
    push_u64_text(out, s.end_time_unix_nano);
    proof {
        acc = acc + encode_utf8(text::spec_dec_chars(s.end_time_unix_nano as int));
        assert(out@ =~= old(out)@ + acc);
    }
    push_lit(out, "\",\"kind\":");
    proof {
        acc = acc + encode_utf8("\",\"kind\":"@);
        assert(out@ =~= old(out)@ + acc);
    }
    push_i32_text(out, s.kind);
    proof {
        acc = acc + encode_utf8(text::spec_dec_chars_signed(s.kind as int));
        assert(out@ =~= old(out)@ + acc);
    }
    push_lit(out, ",\"name\":");
    proof {
        acc = acc + encode_utf8(",\"name\":"@);
        assert(out@ =~= old(out)@ + acc);
    }
    push_json_string(out, s.name.as_str());
    proof {
        acc = acc + spec_json_string(s.name@);
        assert(out@ =~= old(out)@ + acc);
    }
    push_lit(out, ",\"parentSpanId\":");
    proof {
        acc = acc + encode_utf8(",\"parentSpanId\":"@);
        assert(out@ =~= old(out)@ + acc);
    }
    push_json_string(out, s.parent_span_id.as_str());
    proof {
        acc = acc + spec_json_string(s.parent_span_id@);
        assert(out@ =~= old(out)@ + acc);
    }
    push_lit(out, ",\"spanId\":");
    proof {
        acc = acc + encode_utf8(",\"spanId\":"@);
        assert(out@ =~= old(out)@ + acc);
    }
    push_json_string(out, s.span_id.as_str());
    proof {
        acc = acc + spec_json_string(s.span_id@);
        assert(out@ =~= old(out)@ + acc);
    }
    push_lit(out, ",\"startTimeUnixNano\":\"");
    proof {
        acc = acc + encode_utf8(",\"startTimeUnixNano\":\""@);
        assert(out@ =~= old(out)@ + acc);
    }
    push_u64_text(out, s.start_time_unix_nano);
    proof {
        acc = acc + encode_utf8(text::spec_dec_chars(s.start_time_unix_nano as int));
        assert(out@ =~= old(out)@ + acc);
    }
    push_lit(out, "\",\"status\":{\"code\":");
    proof {
        acc = acc + encode_utf8("\",\"status\":{\"code\":"@);
        assert(out@ =~= old(out)@ + acc);
    }
    push_i32_text(out, s.status_code);
    proof {
        acc = acc + encode_utf8(text::spec_dec_chars_signed(s.status_code as int));
        assert(out@ =~= old(out)@ + acc);
    }
    push_lit(out, ",\"message\":");
    proof {
        acc = acc + encode_utf8(",\"message\":"@);
        assert(out@ =~= old(out)@ + acc);
    }
    match &s.status_message {
        Some(m) => {
            push_json_string(out, m.as_str());
        },
        None => {
            push_json_string(out, "");
        },
    }
    proof {
        if s.status_message is None {
            reveal_strlit("");
            assert(""@ =~= spec_status_message(*s));
        }
        acc = acc + spec_json_string(spec_status_message(*s));
        assert(out@ =~= old(out)@ + acc);
    }
    push_lit(out, "},\"traceId\":");
    proof {
        acc = acc + encode_utf8("},\"traceId\":"@);
        assert(out@ =~= old(out)@ + acc);
    }
    push_json_string(out, s.trace_id.as_str());
    proof {
        acc = acc + spec_json_string(s.trace_id@);
        assert(out@ =~= old(out)@ + acc);
    }
    push_lit(out, "}");
    proof {
        acc = acc + encode_utf8("}"@);
        assert(out@ =~= old(out)@ + acc);
        assert(acc == spec_span_json(*s));
    }
}

/// A comma-separated list of span objects.
pub open spec fn spec_span_list(spans: Seq<MapleSpan>) -> Seq<u8>
    decreases spans.len(),
{
    if spans.len() == 0 {
        Seq::<u8>::empty()
    } else if spans.len() == 1 {
        spec_span_json(spans[0])
    } else {
        spec_span_list(spans.drop_last()) + encode_utf8(","@) + spec_span_json(spans.last())
    }
}

/// The resource attribute list: service name, deployment environment,
/// and the service version when configured.
pub open spec fn spec_resource_attrs_json(c: MapleExporterConfig) -> Seq<u8> {
    spec_attr_json("service.name"@, c.service_name@) + encode_utf8(","@) + spec_attr_json(
        "deployment.environment"@,
        c.deployment_environment@,
    ) + (match c.service_version {
        Some(v) => encode_utf8(","@) + spec_attr_json("service.version"@, v@),
        None => Seq::<u8>::empty(),
    })
}

/// The whole trace-export document for one flush.
pub open spec fn spec_payload_json(c: MapleExporterConfig, spans: Seq<MapleSpan>) -> Seq<u8> {
    encode_utf8("{\"resourceSpans\":[{\"resource\":{\"attributes\":["@)
        + spec_resource_attrs_json(c) + encode_utf8("]},\"scopeSpans\":[{\"scope\":{\"name\":"@)
        + spec_json_string(c.scope_name@) + encode_utf8("},\"spans\":["@) + spec_span_list(spans)
        + encode_utf8("]}]}]}"@)
}

/// Builds the wire payload for one batch: the exact bytes of
/// [`spec_payload_json`], one JSON document, no surrounding whitespace.
#[verifier::rlimit(100)]
pub fn encode_batch_payload(c: &MapleExporterConfig, spans: &Vec<MapleSpan>) -> (r: Vec<u8>)
    ensures
        r@ == spec_payload_json(*c, spans@),
{
    let mut out: Vec<u8> = Vec::new();
    let ghost mut acc: Seq<u8> = Seq::<u8>::empty();
    proof {
        assert(out@ =~= acc);
    }
    push_lit(&mut out, "{\"resourceSpans\":[{\"resource\":{\"attributes\":[");
    proof {
        acc = acc + encode_utf8("{\"resourceSpans\":[{\"resource\":{\"attributes\":["@);
        assert(out@ =~= acc);
    }
    push_attr(&mut out, "service.name", c.service_name.as_str());
    proof {
        acc = acc + spec_attr_json("service.name"@, c.service_name@);
        assert(out@ =~= acc);
    }
    push_lit(&mut out, ",");
    push_attr(&mut out, "deployment.environment", c.deployment_environment.as_str());
    proof {
        acc = acc + (encode_utf8(","@) + spec_attr_json(
            "deployment.environment"@,
            c.deployment_environment@,
        ));
        assert(out@ =~= acc);
    }
    match &c.service_version {
        Some(v) => {
            push_lit(&mut out, ",");
            push_attr(&mut out, "service.version", v.as_str());
        },
        None => {},
    }
    proof {
        acc = acc + (match &c.service_version {
            Some(v) => encode_utf8(","@) + spec_attr_json("service.version"@, v@),
            None => Seq::<u8>::empty(),
        });
        assert(out@ =~= acc);
    }
    push_lit(&mut out, "]},\"scopeSpans\":[{\"scope\":{\"name\":");
    proof {
        acc = acc + encode_utf8("]},\"scopeSpans\":[{\"scope\":{\"name\":"@);
        assert(out@ =~= acc);
    }
    push_json_string(&mut out, c.scope_name.as_str());
    proof {
        acc = acc + spec_json_string(c.scope_name@);
        assert(out@ =~= acc);
    }
    push_lit(&mut out, "},\"spans\":[");
    proof {
        acc = acc + encode_utf8("},\"spans\":["@);
        assert(out@ =~= acc);
    }
    let n = spans.len();
    let mut i: usize = 0;
    let ghost head = acc;
    proof {
        assert(spans@.take(0) =~= Seq::<MapleSpan>::empty());
        assert(out@ =~= head + spec_span_list(spans@.take(0)));
    }
    while i < n
        invariant
            0 <= i <= n == spans@.len(),
            out@ == head + spec_span_list(spans@.take(i as int)),
        decreases n - i,
    {
        if i > 0 {
            push_lit(&mut out, ",");
        }
        push_span_json(&mut out, &spans[i]);
        proof {
            let sv = spans@;
            assert(sv.take(i as int + 1).drop_last() =~= sv.take(i as int));
            assert(sv.take(i as int + 1).last() == sv[i as int]);
            if i == 0 {
                assert(spec_span_list(sv.take(1)) == spec_span_json(sv[0]));
            } else {
                assert(spec_span_list(sv.take(i as int + 1)) == spec_span_list(sv.take(i as int))
                    + encode_utf8(","@) + spec_span_json(sv[i as int]));
            }
            assert(out@ =~= head + spec_span_list(sv.take(i as int + 1)));
        }
        i += 1;
    }
    proof {
        assert(spans@.take(n as int) =~= spans@);
    }
    push_lit(&mut out, "]}]}]}");
    proof {
        acc = head + spec_span_list(spans@) + encode_utf8("]}]}]}"@);
        assert(out@ =~= acc);
        assert(acc =~= spec_payload_json(*c, spans@));
    }
    out
}

} // verus!
