//! Deterministic span and trace identifiers.
//!
//! Identifiers are derived from caller-supplied correlation strings with a
//! 64-bit FNV-1a digest rendered as fixed-width lowercase hexadecimal, so
//! that repeated runs over the same inputs yield the same identifiers. A
//! trace identifier concatenates two digests (32 hex characters); a span
//! identifier is one digest (16 hex characters).

use vstd::prelude::*;
use vstd::string::StringSliceAdditionalSpecFns;
use vstd::utf8::encode_utf8;

verus! {

/// The FNV-1a 64-bit offset basis.
pub const FNV_OFFSET_BASIS: u64 = 0xcbf29ce484222325;

/// The FNV-1a 64-bit prime.
pub const FNV_PRIME: u64 = 0x100000001b3;

/// One FNV-1a step: fold a byte into the running digest.
pub open spec fn spec_fnv1a64_step(h: u64, b: u8) -> u64 {
    (h ^ b as u64).wrapping_mul(FNV_PRIME)
}

/// The digest after folding `data` into the running digest `h`.
pub open spec fn spec_fnv1a64_from(h: u64, data: Seq<u8>) -> u64
    decreases data.len(),
{
    if data.len() == 0 {
        h
    } else {
        spec_fnv1a64_from(spec_fnv1a64_step(h, data[0]), data.drop_first())
    }
}

/// The FNV-1a 64-bit digest of a byte string.
pub open spec fn spec_fnv1a64(data: Seq<u8>) -> u64 {
    spec_fnv1a64_from(FNV_OFFSET_BASIS, data)
}

/// The 64-bit FNV-1a digest, computed byte by byte.
pub fn fnv1a64(data: &[u8]) -> (r: u64)
    ensures
        r == spec_fnv1a64(data@),
{
    let mut h: u64 = FNV_OFFSET_BASIS;
    let n = data.len();
    let mut i: usize = 0;
    proof {
        assert(data@.skip(0) =~= data@);
    }
    while i < n
        invariant
            0 <= i <= n == data@.len(),
            spec_fnv1a64(data@) == spec_fnv1a64_from(h, data@.skip(i as int)),
        decreases n - i,
    {
        proof {
            let rest = data@.skip(i as int);
            assert(rest[0] == data@[i as int]);
            assert(rest.drop_first() =~= data@.skip(i as int + 1));
        }
        h = (h ^ data[i] as u64).wrapping_mul(FNV_PRIME);
        i += 1;
    }
    proof {
        assert(data@.skip(n as int) =~= Seq::<u8>::empty());
    }
    h
}

/// The lowercase hexadecimal character of one nibble value.
pub open spec fn spec_hex_digit_char(d: int) -> char {
    if d == 0 { '0' }
    else if d == 1 { '1' }
    else if d == 2 { '2' }
    else if d == 3 { '3' }
    else if d == 4 { '4' }
    else if d == 5 { '5' }
    else if d == 6 { '6' }
    else if d == 7 { '7' }
    else if d == 8 { '8' }
    else if d == 9 { '9' }
    else if d == 10 { 'a' }
    else if d == 11 { 'b' }
    else if d == 12 { 'c' }
    else if d == 13 { 'd' }
    else if d == 14 { 'e' }
    else { 'f' }
}

/// The `i`-th nibble of `h`, most significant first.
pub open spec fn nibble_of(h: u64, i: int) -> u64 {
    (h >> (((15 - i) * 4) as u64)) & 0xf
}

/// The 16-character lowercase hexadecimal rendering of a 64-bit value.
pub open spec fn spec_hex64(h: u64) -> Seq<char> {
    Seq::new(16, |i: int| spec_hex_digit_char(nibble_of(h, i) as int))
}

pub open spec fn is_lower_hex_char(c: char) -> bool {
    ('0' as int <= c as int <= '9' as int) || ('a' as int <= c as int <= 'f' as int)
}

/// Hexadecimal renderings are 16 characters of lowercase hex.
pub proof fn lemma_hex64_shape(h: u64)
    ensures
        spec_hex64(h).len() == 16,
        forall|i: int| 0 <= i < 16 ==> is_lower_hex_char(#[trigger] spec_hex64(h)[i]),
{
}

/// Appends the character of one nibble value.
fn push_hex_digit(out: &mut String, d: u64)
    requires
        d < 16,
    ensures
        final(out)@ == old(out)@ + seq![spec_hex_digit_char(d as int)],
{
    proof {
        reveal_strlit("0");
        reveal_strlit("1");
        reveal_strlit("2");
        reveal_strlit("3");
        reveal_strlit("4");
        reveal_strlit("5");
        reveal_strlit("6");
        reveal_strlit("7");
        reveal_strlit("8");
        reveal_strlit("9");
        reveal_strlit("a");
        reveal_strlit("b");
        reveal_strlit("c");
        reveal_strlit("d");
        reveal_strlit("e");
        reveal_strlit("f");
    }
    match d {
        0 => out.append("0"),
        1 => out.append("1"),
        2 => out.append("2"),
        3 => out.append("3"),
        4 => out.append("4"),
        5 => out.append("5"),
        6 => out.append("6"),
        7 => out.append("7"),
        8 => out.append("8"),
        9 => out.append("9"),
        10 => out.append("a"),
        11 => out.append("b"),
        12 => out.append("c"),
        13 => out.append("d"),
        14 => out.append("e"),
        _ => out.append("f"),
    }
    proof {
        assert(final(out)@ =~= old(out)@ + seq![spec_hex_digit_char(d as int)]);
    }
}

/// Appends the 16-character hexadecimal rendering of `h`.
pub fn push_hex64(out: &mut String, h: u64)
    ensures
        final(out)@ == old(out)@ + spec_hex64(h),
{
    let mut i: usize = 0;
    while i < 16
        invariant
            0 <= i <= 16,
            out@ == old(out)@ + spec_hex64(h).take(i as int),
        decreases 16 - i,
    {
        let sh: u64 = (15 - i as u64) * 4;
        let nib: u64 = (h >> sh) & 0xf;
        proof {
            assert((h >> sh) & 0xf < 16) by (bit_vector);
            assert(nib == nibble_of(h, i as int));
        }
        push_hex_digit(out, nib);
        proof {
            assert(out@ =~= old(out)@ + spec_hex64(h).take(i as int + 1));
        }
        i += 1;
    }
    proof {
        assert(spec_hex64(h).take(16) =~= spec_hex64(h));
    }
}

/// The hexadecimal digest of the UTF-8 bytes of a string.
pub open spec fn spec_hash_hex(s: Seq<char>) -> Seq<char> {
    spec_hex64(spec_fnv1a64(encode_utf8(s)))
}

/// The trace identifier of a `(session, event)` pair: the digest of the
/// session followed by the digest of the event.
pub open spec fn spec_trace_id(session_id: Seq<char>, event_id: Seq<char>) -> Seq<char> {
    spec_hash_hex(session_id) + spec_hash_hex(event_id)
}

/// The span identifier of a seed string: one digest.
pub open spec fn spec_span_id(seed: Seq<char>) -> Seq<char> {
    spec_hash_hex(seed)
}

/// The stable trace identifier of a `(session, event)` pair: exactly 32
/// lowercase hexadecimal characters, a function of the two strings alone.
pub fn stable_trace_id(session_id: &str, event_id: &str) -> (r: String)
    ensures
        r@ == spec_trace_id(session_id@, event_id@),
        r@.len() == 32,
{
    let a = fnv1a64(session_id.as_bytes());
    let b = fnv1a64(event_id.as_bytes());
    let mut out = String::new();
    push_hex64(&mut out, a);
    push_hex64(&mut out, b);
    proof {
        assert(out@ =~= spec_trace_id(session_id@, event_id@));
    }
    out
}

/// The stable span identifier of a seed string: exactly 16 lowercase
/// hexadecimal characters, a function of the seed alone.
pub fn stable_span_id(seed: &str) -> (r: String)
    ensures
        r@ == spec_span_id(seed@),
        r@.len() == 16,
{
    let h = fnv1a64(seed.as_bytes());
    let mut out = String::new();
    push_hex64(&mut out, h);
    proof {
        assert(out@ =~= spec_span_id(seed@));
    }
    out
}

/// Trace identifiers depend on the session and event strings alone: equal
/// pairs yield equal identifiers, whatever else differs between two spans.
pub proof fn lemma_trace_id_deterministic(
    s1: Seq<char>,
    e1: Seq<char>,
    s2: Seq<char>,
    e2: Seq<char>,
)
    requires
        s1 == s2,
        e1 == e2,
    ensures
        spec_trace_id(s1, e1) == spec_trace_id(s2, e2),
{
}

/// Every trace identifier is 32 lowercase hexadecimal characters and every
/// span identifier is 16, for all inputs.
pub proof fn lemma_id_shapes(session_id: Seq<char>, event_id: Seq<char>, seed: Seq<char>)
    ensures
        spec_trace_id(session_id, event_id).len() == 32,
        forall|i: int|
            0 <= i < 32 ==> is_lower_hex_char(
                #[trigger] spec_trace_id(session_id, event_id)[i],
            ),
        spec_span_id(seed).len() == 16,
        forall|i: int| 0 <= i < 16 ==> is_lower_hex_char(#[trigger] spec_span_id(seed)[i]),
{
    lemma_hex64_shape(spec_fnv1a64(encode_utf8(session_id)));
    lemma_hex64_shape(spec_fnv1a64(encode_utf8(event_id)));
    lemma_hex64_shape(spec_fnv1a64(encode_utf8(seed)));
    let t = spec_trace_id(session_id, event_id);
    assert forall|i: int| 0 <= i < 32 implies is_lower_hex_char(#[trigger] t[i]) by {
        if i < 16 {
            assert(t[i] == spec_hash_hex(session_id)[i]);
        } else {
            assert(t[i] == spec_hash_hex(event_id)[i - 16]);
        }
    }
}

} // verus!
