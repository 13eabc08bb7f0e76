//! Verified text primitives: decimal rendering and parsing of unsigned
//! integers, whitespace trimming, and character-exact string comparison.
//!
//! Timestamps travel on the wire as decimal strings, configuration values
//! arrive as decimal strings, and identifiers are compared byte-for-byte,
//! so these small functions carry exact contracts.

use vstd::prelude::*;
use vstd::string::StrSliceExecFns;
use vstd::string::StringExecFns;

verus! {

/// The ASCII whitespace characters that trimming removes.
pub open spec fn is_ws_char(c: char) -> bool {
    c == ' ' || c == '\t' || c == '\n' || c == '\r' || c == '\x0c'
}

/// The character for one decimal digit value.
pub open spec fn spec_digit_char(d: int) -> char {
    if d == 0 { '0' }
    else if d == 1 { '1' }
    else if d == 2 { '2' }
    else if d == 3 { '3' }
    else if d == 4 { '4' }
    else if d == 5 { '5' }
    else if d == 6 { '6' }
    else if d == 7 { '7' }
    else if d == 8 { '8' }
    else { '9' }
}

/// Decimal rendering of a non-negative integer, most significant digit first.
pub open spec fn spec_dec_chars(n: int) -> Seq<char>
    decreases n,
{
    if n < 10 {
        seq![spec_digit_char(n)]
    } else {
        spec_dec_chars(n / 10).push(spec_digit_char(n % 10))
    }
}

/// Decimal rendering of a signed integer: a minus sign and the magnitude.
pub open spec fn spec_dec_chars_signed(n: int) -> Seq<char> {
    if n < 0 {
        seq!['-'] + spec_dec_chars(-n)
    } else {
        spec_dec_chars(n)
    }
}

pub open spec fn is_digit_char(c: char) -> bool {
    '0' as int <= c as int <= '9' as int
}

pub open spec fn all_digit_chars(s: Seq<char>) -> bool {
    forall|i: int| 0 <= i < s.len() ==> is_digit_char(#[trigger] s[i])
}

pub open spec fn spec_digit_val(c: char) -> int {
    c as int - '0' as int
}

/// The numeric value of a digit string, read most significant digit first.
pub open spec fn spec_dec_val(s: Seq<char>) -> int
    decreases s.len(),
{
    if s.len() == 0 {
        0
    } else {
        spec_dec_val(s.drop_last()) * 10 + spec_digit_val(s.last())
    }
}

/// What parsing a decimal `u64` yields: `Some` exactly on non-empty
/// all-digit strings whose value fits in a `u64`.
pub open spec fn spec_parse_u64(s: Seq<char>) -> Option<u64> {
    if s.len() > 0 && all_digit_chars(s) && spec_dec_val(s) <= u64::MAX {
        Some(spec_dec_val(s) as u64)
    } else {
        None
    }
}

/// Appends the character of one digit value to a string.
fn push_digit(out: &mut String, d: u64)
    requires
        d < 10,
    ensures
        final(out)@ == old(out)@ + seq![spec_digit_char(d as int)],
{
    proof {
        reveal_strlit("0");
        reveal_strlit("1");
        reveal_strlit("2");
        reveal_strlit("3");
        reveal_strlit("4");
        reveal_strlit("5");
        reveal_strlit("6");
        reveal_strlit("7");
        reveal_strlit("8");
        reveal_strlit("9");
    }
    match d {
        0 => out.append("0"),
        1 => out.append("1"),
        2 => out.append("2"),
        3 => out.append("3"),
        4 => out.append("4"),
        5 => out.append("5"),
        6 => out.append("6"),
        7 => out.append("7"),
        8 => out.append("8"),
        _ => out.append("9"),
    }
    proof {
        assert(out@ =~= old(out)@ + seq![spec_digit_char(d as int)]);
    }
}

/// Appends the decimal rendering of `n` to a string.
pub fn push_dec_u64(out: &mut String, n: u64)
    ensures
        final(out)@ == old(out)@ + spec_dec_chars(n as int),
    decreases n,
{
    if n >= 10 {
        push_dec_u64(out, n / 10);
    }
    push_digit(out, n % 10);
    proof {
        assert(out@ =~= old(out)@ + spec_dec_chars(n as int));
    }
}

/// Decimal rendering of a `u64` as a fresh string.
pub fn u64_to_dec_string(n: u64) -> (r: String)
    ensures
        r@ == spec_dec_chars(n as int),
{
    let mut s = String::new();
    push_dec_u64(&mut s, n);
    proof {
        assert(s@ =~= spec_dec_chars(n as int));
    }
    s
}

/// Decimal rendering of an `i64` as a fresh string.
pub fn i64_to_dec_string(n: i64) -> (r: String)
    ensures
        r@ == spec_dec_chars_signed(n as int),
{
    let mut s = String::new();
    if n < 0 {
        proof {
            reveal_strlit("-");
        }
        s.append("-");
        // the magnitude of i64::MIN does not fit in an i64
        let mag: u64 = if n == i64::MIN { 9223372036854775808u64 } else { (-n) as u64 };
        push_dec_u64(&mut s, mag);
        proof {
            assert(s@ =~= spec_dec_chars_signed(n as int));
        }
    } else {
        push_dec_u64(&mut s, n as u64);
    }
    s
}

/// Every digit string has a non-negative value.
pub proof fn lemma_dec_val_nonneg(s: Seq<char>)
    requires
        all_digit_chars(s),
    ensures
        spec_dec_val(s) >= 0,
    decreases s.len(),
{
    if s.len() > 0 {
        assert(all_digit_chars(s.drop_last())) by {
            assert(forall|i: int| 0 <= i < s.len() - 1 ==> s.drop_last()[i] == s[i]);
        }
        lemma_dec_val_nonneg(s.drop_last());
    }
}

/// The value of a digit string is at least the value of any of its prefixes.
pub proof fn lemma_dec_val_prefix_le(s: Seq<char>, j: int)
    requires
        all_digit_chars(s),
        0 <= j <= s.len(),
    ensures
        spec_dec_val(s.take(j)) <= spec_dec_val(s),
    decreases s.len() - j,
{
    if j < s.len() {
        let t = s.take(j + 1);
        assert(t.drop_last() =~= s.take(j));
        assert(all_digit_chars(s.take(j)));
        lemma_dec_val_nonneg(s.take(j));
        assert(spec_dec_val(t) == spec_dec_val(s.take(j)) * 10 + spec_digit_val(s[j]));
        assert(spec_digit_val(s[j]) >= 0);
        assert(spec_dec_val(s.take(j)) <= spec_dec_val(t));
        lemma_dec_val_prefix_le(s, j + 1);
        assert(s.take(s.len() as int) =~= s);
    } else {
        assert(s.take(j) =~= s);
    }
}

/// Parses a decimal `u64`, accepting exactly the strings that
/// [`spec_parse_u64`] accepts.
pub fn parse_u64_dec(s: &str) -> (r: Option<u64>)
    ensures
        r == spec_parse_u64(s@),
{
    let n = s.unicode_len();
    if n == 0 {
        return None;
    }
    let mut acc: u64 = 0;
    let mut i: usize = 0;
    while i < n
        invariant
            0 < n == s@.len(),
            0 <= i <= n,
            all_digit_chars(s@.take(i as int)),
            acc as int == spec_dec_val(s@.take(i as int)),
        decreases n - i,
    {
        let c = s.get_char(i);
        let code = c as u32;
        if code < 48 || code > 57 {
            proof {
                assert(!is_digit_char(s@[i as int]));
            }
            return None;
        }
        let d = (code - 48) as u64;
        proof {
            assert(is_digit_char(s@[i as int]));
            assert(d as int == spec_digit_val(s@[i as int]));
        }
        if acc > (u64::MAX - d) / 10 {
            proof {
                let t = s@.take(i as int + 1);
                assert(t.drop_last() =~= s@.take(i as int));
                assert(spec_dec_val(t) == acc as int * 10 + d as int);
                assert(acc as int * 10 + d as int > u64::MAX as int);
                if all_digit_chars(s@) {
                    assert(s@.take(i as int + 1) =~= s@.take(i as int + 1));
                    lemma_dec_val_prefix_le(s@, i as int + 1);
                    assert(spec_dec_val(s@) > u64::MAX as int);
                }
            }
            return None;
        }
        acc = acc * 10 + d;
        proof {
            let t = s@.take(i as int + 1);
            assert(t.drop_last() =~= s@.take(i as int));
            assert(acc as int == spec_dec_val(t));
        }
        i += 1;
    }
    proof {
        assert(s@.take(n as int) =~= s@);
    }
    Some(acc)
}

/// Rendering a `u64` in decimal yields only digits.
pub proof fn lemma_dec_chars_all_digits(n: int)
    requires
        n >= 0,
    ensures
        all_digit_chars(spec_dec_chars(n)),
        spec_dec_chars(n).len() >= 1,
    decreases n,
{
    if n >= 10 {
        lemma_dec_chars_all_digits(n / 10);
        let s = spec_dec_chars(n);
        assert(s == spec_dec_chars(n / 10).push(spec_digit_char(n % 10)));
        assert(forall|i: int| 0 <= i < s.len() - 1 ==> s[i] == spec_dec_chars(n / 10)[i]);
        assert(is_digit_char(spec_digit_char(n % 10)));
    }
}

/// Parsing inverts rendering: the decimal string of `n` reads back as `n`.
pub proof fn lemma_dec_roundtrip(n: u64)
    ensures
        spec_parse_u64(spec_dec_chars(n as int)) == Some(n),
{
    lemma_dec_chars_all_digits(n as int);
    lemma_dec_val_of_chars(n as int);
}

/// The value of the decimal rendering of `n` is `n`.
pub proof fn lemma_dec_val_of_chars(n: int)
    requires
        n >= 0,
    ensures
        spec_dec_val(spec_dec_chars(n)) == n,
    decreases n,
{
    if n < 10 {
        let s = spec_dec_chars(n);
        assert(s.drop_last() =~= Seq::<char>::empty());
        assert(spec_dec_val(Seq::<char>::empty()) == 0);
        assert(spec_dec_val(s) == spec_digit_val(spec_digit_char(n)));
    } else {
        lemma_dec_val_of_chars(n / 10);
        let s = spec_dec_chars(n);
        assert(s.drop_last() =~= spec_dec_chars(n / 10));
        assert(spec_dec_val(s) == n / 10 * 10 + spec_digit_val(spec_digit_char(n % 10)));
        assert(spec_digit_val(spec_digit_char(n % 10)) == n % 10);
    }
}

/// What is left after removing leading whitespace.
pub open spec fn trim_front(s: Seq<char>) -> Seq<char>
    decreases s.len(),
{
    if s.len() > 0 && is_ws_char(s[0]) {
        trim_front(s.drop_first())
    } else {
        s
    }
}

/// What is left after removing trailing whitespace.
pub open spec fn trim_back(s: Seq<char>) -> Seq<char>
    decreases s.len(),
{
    if s.len() > 0 && is_ws_char(s.last()) {
        trim_back(s.drop_last())
    } else {
        s
    }
}

/// What is left after removing whitespace at both ends.
pub open spec fn spec_trim(s: Seq<char>) -> Seq<char> {
    trim_back(trim_front(s))
}

proof fn lemma_trim_front_skip(s: Seq<char>, k: int)
    requires
        0 <= k <= s.len(),
        forall|j: int| 0 <= j < k ==> is_ws_char(#[trigger] s[j]),
        k == s.len() || !is_ws_char(s[k]),
    ensures
        trim_front(s) == s.skip(k),
    decreases k,
{
    if k == 0 {
        assert(s.skip(0) =~= s);
    } else {
        assert(is_ws_char(s[0]));
        let t = s.drop_first();
        assert(t =~= s.skip(1));
        assert(forall|j: int| 0 <= j < k - 1 ==> is_ws_char(#[trigger] t[j]));
        assert(k - 1 == t.len() || !is_ws_char(t[k - 1]));
        lemma_trim_front_skip(t, k - 1);
        assert(t.skip(k - 1) =~= s.skip(k));
    }
}

proof fn lemma_trim_back_take(s: Seq<char>, m: int)
    requires
        0 <= m <= s.len(),
        forall|j: int| m <= j < s.len() ==> is_ws_char(#[trigger] s[j]),
        m == 0 || !is_ws_char(s[m - 1]),
    ensures
        trim_back(s) == s.take(m),
    decreases s.len() - m,
{
    if m == s.len() {
        if s.len() > 0 && is_ws_char(s.last()) {
            assert(!is_ws_char(s[m - 1]));
            assert(false);
        }
        assert(s.take(m) =~= s);
    } else {
        assert(is_ws_char(s.last()));
        let t = s.drop_last();
        assert(forall|j: int| m <= j < t.len() ==> is_ws_char(#[trigger] t[j]));
        lemma_trim_back_take(t, m);
        assert(t.take(m) =~= s.take(m));
    }
}

/// Trimming removes exactly the whitespace margins: if everything before
/// `a` and everything from `b` on is whitespace, and the characters at the
/// inner edges are not, the trim is the subrange `[a, b)`.
pub proof fn lemma_trim_is_subrange(s: Seq<char>, a: int, b: int)
    requires
        0 <= a <= b <= s.len(),
        forall|j: int| 0 <= j < a ==> is_ws_char(#[trigger] s[j]),
        forall|j: int| b <= j < s.len() ==> is_ws_char(#[trigger] s[j]),
        a < b ==> !is_ws_char(s[a]) && !is_ws_char(s[b - 1]),
    ensures
        spec_trim(s) == s.subrange(a, b),
{
    if a < b {
        lemma_trim_front_skip(s, a);
        let t = s.skip(a);
        assert(forall|j: int| b - a <= j < t.len() ==> is_ws_char(#[trigger] t[j]));
        assert(!is_ws_char(t[b - a - 1]));
        lemma_trim_back_take(t, b - a);
        assert(t.take(b - a) =~= s.subrange(a, b));
    } else {
        // everything is whitespace: both passes leave the empty sequence
        assert(forall|j: int| 0 <= j < s.len() ==> is_ws_char(#[trigger] s[j]));
        lemma_trim_front_skip(s, s.len() as int);
        assert(s.skip(s.len() as int) =~= Seq::<char>::empty());
        assert(trim_back(Seq::<char>::empty()) =~= Seq::<char>::empty());
        assert(s.subrange(a, b) =~= Seq::<char>::empty());
    }
}

fn is_ws(c: char) -> (r: bool)
    ensures
        r == is_ws_char(c),
{
    c == ' ' || c == '\t' || c == '\n' || c == '\r' || c == '\x0c'
}

/// Removes leading and trailing whitespace.
pub fn trim_str(s: &str) -> (r: String)
    ensures
        r@ == spec_trim(s@),
{
    let n = s.unicode_len();
    let mut a: usize = 0;
    while a < n && is_ws(s.get_char(a))
        invariant
            0 <= a <= n == s@.len(),
            forall|j: int| 0 <= j < a ==> is_ws_char(#[trigger] s@[j]),
        decreases n - a,
    {
        a += 1;
    }
    if a == n {
        proof {
            lemma_trim_is_subrange(s@, 0, 0);
            assert(s@.subrange(0, 0) =~= Seq::<char>::empty());
        }
        let r = String::new();
        return r;
    }
    let mut b: usize = n;
    while b > a && is_ws(s.get_char(b - 1))
        invariant
            a <= b <= n == s@.len(),
            a < n,
            !is_ws_char(s@[a as int]),
            forall|j: int| b <= j < n ==> is_ws_char(#[trigger] s@[j]),
        decreases b,
    {
        b -= 1;
    }
    proof {
        assert(b > a);
        assert(!is_ws_char(s@[b - 1]));
        lemma_trim_is_subrange(s@, a as int, b as int);
    }
    let piece = s.substring_char(a, b);
    String::from_str(piece)
}

/// Trims and keeps only non-empty remainders, as the configuration reader
/// does with raw values.
pub fn non_empty(s: &str) -> (r: Option<String>)
    ensures
        (r is Some) == (spec_trim(s@).len() > 0),
        r matches Some(t) ==> t@ == spec_trim(s@),
{
    let t = trim_str(s);
    if t.as_str().unicode_len() == 0 {
        None
    } else {
        Some(t)
    }
}

/// Character-exact string equality.
pub fn str_eq(a: &str, b: &str) -> (r: bool)
    ensures
        r == (a@ == b@),
{
    let n = a.unicode_len();
    if n != b.unicode_len() {
        return false;
    }
    let mut i: usize = 0;
    while i < n
        invariant
            0 <= i <= n,
            n == a@.len() == b@.len(),
            forall|j: int| 0 <= j < i ==> a@[j] == b@[j],
        decreases n - i,
    {
        if a.get_char(i) != b.get_char(i) {
            assert(a@[i as int] != b@[i as int]);
            return false;
        }
        i += 1;
    }
    proof {
        assert(a@ =~= b@);
    }
    true
}

} // verus!
