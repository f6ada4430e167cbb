//! Small verified text helpers shared across the crate: decimal rendering,
//! ASCII case folding, ASCII whitespace trimming, and unsigned decimal
//! parsing.  Output text is built as a `Vec<char>` and turned into a
//! `String` at the edge.

use vstd::prelude::*;

verus! {

/// Turns a character vector into the string holding the same characters.
///
/// Relies on `core::iter::Iterator::collect` via `str`'s `FromIterator`:
/// collecting characters yields the string of exactly those characters.
#[verifier::external_body]
pub(crate) fn string_from_chars(v: &Vec<char>) -> (r: String)
    ensures
        r@ == v@,
{
    v.iter().collect()
}

/// Relies on `char::from_u32`: it returns the character with scalar value
/// `u` exactly when `u` is a valid scalar value (not a surrogate, at most
/// 0x10FFFF), and `None` otherwise.
#[verifier::external_body]
pub(crate) fn char_from_u32(u: u32) -> (r: Option<char>)
    ensures
        r == (if u < 0xD800 || (0xE000 <= u && u <= 0x10FFFF) {
            Some(u as char)
        } else {
            None::<char>
        }),
{
    char::from_u32(u)
}

/// ASCII whitespace, as trimmed from the ends of persisted text.
pub open spec fn is_ws(c: char) -> bool {
    c == ' ' || c == '\t' || c == '\n' || c == '\r'
}

/// ASCII decimal digit.
pub open spec fn is_digit(c: char) -> bool {
    '0' <= c && c <= '9'
}

/// The digit character for a value between 0 and 9.
pub open spec fn dec_digit(d: int) -> char
    recommends
        0 <= d <= 9,
{
    ((48 + d) as u8) as char
}

/// The decimal text of a non-negative integer, without sign or padding.
pub open spec fn dec_of(n: int) -> Seq<char>
    recommends
        n >= 0,
    decreases n,
{
    if n < 10 {
        seq![dec_digit(n)]
    } else {
        dec_of(n / 10).push(dec_digit(n % 10))
    }
}

/// The decimal text of an integer, with a leading minus when negative.
pub open spec fn dec_int_of(n: int) -> Seq<char> {
    if n < 0 {
        seq!['-'] + dec_of(-n)
    } else {
        dec_of(n)
    }
}

/// ASCII lower case of one character; other characters are untouched.
pub open spec fn lower_char(c: char) -> char {
    if 'A' <= c && c <= 'Z' {
        ((c as u8) + 32) as char
    } else {
        c
    }
}

/// ASCII lower case of a character sequence.
pub open spec fn lower_seq(s: Seq<char>) -> Seq<char> {
    s.map_values(|c: char| lower_char(c))
}

/// The value of a sequence of decimal digits, most significant first.
pub open spec fn dec_val(s: Seq<char>) -> int
    decreases s.len(),
{
    if s.len() == 0 {
        0
    } else {
        dec_val(s.drop_last()) * 10 + (s.last() as int - 48)
    }
}

/// The first index at or after `i` holding a non-whitespace character.
pub open spec fn ws_lo(s: Seq<char>, i: int) -> int
    recommends
        0 <= i <= s.len(),
    decreases s.len() - i,
{
    if i < 0 || i >= s.len() {
        i
    } else if is_ws(s[i]) {
        ws_lo(s, i + 1)
    } else {
        i
    }
}

/// The end (exclusive) of the text before trailing whitespace, at or below `i`.
pub open spec fn ws_hi(s: Seq<char>, i: int) -> int
    recommends
        0 <= i <= s.len(),
    decreases i,
{
    if i <= 0 {
        0
    } else if is_ws(s[i - 1]) {
        ws_hi(s, i - 1)
    } else {
        i
    }
}

/// The sequence with ASCII whitespace removed from both ends.
pub open spec fn trim_spec(s: Seq<char>) -> Seq<char> {
    if ws_lo(s, 0) >= ws_hi(s, s.len() as int) {
        Seq::empty()
    } else {
        s.subrange(ws_lo(s, 0), ws_hi(s, s.len() as int))
    }
}

/// Appends every character of `s` to `out`.
#[verifier::loop_isolation(false)]
pub fn append_str(out: &mut Vec<char>, s: &str)
    ensures
        final(out)@ == old(out)@ + s@,
{
    let len = s.unicode_len();
    let mut i: usize = 0;
    while i < len
        invariant
            i <= len,
            len == s@.len(),
            out@ == old(out)@ + s@.take(i as int),
        decreases len - i,
    {
        let c = s.get_char(i);
        out.push(c);
        proof {
            assert(old(out)@ + s@.take(i + 1) =~= (old(out)@ + s@.take(i as int)).push(s@[i as int]));
        }
        i += 1;
    }
    proof {
        assert(s@.take(len as int) =~= s@);
    }
}

/// Appends the decimal text of `n` to `out`.
pub fn append_u64_dec(out: &mut Vec<char>, n: u64)
    ensures
        final(out)@ == old(out)@ + dec_of(n as int),
    decreases n,
{
    if n < 10 {
        out.push((48 + n as u8) as char);
        proof {
            assert(out@ =~= old(out)@ + dec_of(n as int));
        }
    } else {
        append_u64_dec(out, n / 10);
        out.push((48 + (n % 10) as u8) as char);
        proof {
            assert(out@ =~= old(out)@ + dec_of(n as int));
        }
    }
}

/// Appends the decimal text of `n`, with a leading minus when negative.
pub fn append_i32_dec(out: &mut Vec<char>, n: i32)
    ensures
        final(out)@ == old(out)@ + dec_int_of(n as int),
{
    if n < 0 {
        out.push('-');
        let m: u64 = (-(n as i64)) as u64;
        append_u64_dec(out, m);
        proof {
            assert(out@ =~= old(out)@ + dec_int_of(n as int));
        }
    } else {
        append_u64_dec(out, n as u64);
    }
}

/// Appends ASCII-lowercased `s` to `out`.
#[verifier::loop_isolation(false)]
pub fn append_lower(out: &mut Vec<char>, s: &str)
    ensures
        final(out)@ == old(out)@ + lower_seq(s@),
{
    let len = s.unicode_len();
    let mut i: usize = 0;
    while i < len
        invariant
            i <= len,
            len == s@.len(),
            out@ == old(out)@ + lower_seq(s@).take(i as int),
        decreases len - i,
    {
        let c = s.get_char(i);
        let lc: char = if 'A' <= c && c <= 'Z' {
            (c as u8 + 32) as char
        } else {
            c
        };
        proof {
            assert(lc == lower_seq(s@)[i as int]);
        }
        out.push(lc);
        proof {
            assert(old(out)@ + lower_seq(s@).take(i + 1) =~= (old(out)@ + lower_seq(s@).take(
                i as int,
            )).push(lower_seq(s@)[i as int]));
        }
        i += 1;
    }
    proof {
        assert(lower_seq(s@).take(len as int) =~= lower_seq(s@));
    }
}

/// The digit sequences of non-negative integers are non-negative numbers.
pub proof fn lemma_dec_val_nonneg(s: Seq<char>)
    requires
        forall|i: int| 0 <= i < s.len() ==> is_digit(#[trigger] s[i]),
    ensures
        dec_val(s) >= 0,
    decreases s.len(),
{
    if s.len() > 0 {
        lemma_dec_val_nonneg(s.drop_last());
    }
}

/// A digit sequence is worth at least any of its prefixes.
pub proof fn lemma_dec_val_prefix(s: Seq<char>, k: int)
    requires
        forall|i: int| 0 <= i < s.len() ==> is_digit(#[trigger] s[i]),
        0 <= k <= s.len(),
    ensures
        dec_val(s.take(k)) <= dec_val(s),
    decreases s.len() - k,
{
    if k < s.len() {
        lemma_dec_val_prefix(s, k + 1);
        assert(s.take(k + 1).drop_last() =~= s.take(k));
        assert(forall|i: int| 0 <= i < k ==> is_digit(#[trigger] s.take(k)[i]));
        lemma_dec_val_nonneg(s.take(k));
        assert(dec_val(s.take(k + 1)) == dec_val(s.take(k)) * 10 + (s[k] as int - 48));
        assert(dec_val(s.take(k)) <= dec_val(s.take(k + 1)));
    } else {
        assert(s.take(k) =~= s);
    }
}

/// Every character is an ASCII decimal digit.
pub open spec fn all_digits(s: Seq<char>) -> bool {
    forall|i: int| 0 <= i < s.len() ==> is_digit(#[trigger] s[i])
}

/// The text with one leading `+` removed, if present.
pub open spec fn strip_plus(d: Seq<char>) -> Seq<char> {
    if d.len() > 0 && d[0] == '+' {
        d.drop_first()
    } else {
        d
    }
}

/// The parsed value of unsigned decimal text, as `str::parse::<u32>` reads
/// it: optional leading `+`, one or more digits, value at most `u32::MAX`,
/// surrounded by nothing but the whitespace the caller trimmed.
pub open spec fn u32_of_trimmed(d: Seq<char>) -> Option<u32> {
    if strip_plus(d).len() > 0 && all_digits(strip_plus(d)) && dec_val(strip_plus(d))
        <= u32::MAX {
        Some(dec_val(strip_plus(d)) as u32)
    } else {
        None
    }
}

/// Parses the characters of `s` between `a` (inclusive) and `b` (exclusive)
/// as an unsigned decimal number.
#[verifier::loop_isolation(false)]
pub fn parse_u32_range(s: &str, a: usize, b: usize) -> (r: Option<u32>)
    requires
        a <= b <= s@.len(),
    ensures
        r == u32_of_trimmed(s@.subrange(a as int, b as int)),
{
    let ghost d = s@.subrange(a as int, b as int);
    if a == b {
        return None;
    }
    let mut i = a;
    let first = s.get_char(i);
    proof {
        assert(d[0] == s@[a as int]);
    }
    if first == '+' {
        i += 1;
    }
    let ghost t = strip_plus(d);
    proof {
        assert(t =~= s@.subrange(i as int, b as int));
    }
    if i == b {
        return None;
    }
    let mut v: u64 = 0;
    let mut j = i;
    while j < b
        invariant
            i <= j <= b,
            v == dec_val(t.take(j - i)),
            v <= u32::MAX,
            forall|k: int| 0 <= k < j - i ==> is_digit(#[trigger] t[k]),
        decreases b - j,
    {
        let c = s.get_char(j);
        proof {
            assert(t[j - i] == s@[j as int]);
            assert(t.take(j - i + 1).drop_last() =~= t.take(j - i));
            assert(t.take(j - i + 1).last() == t[j - i]);
            assert(dec_val(t.take(j - i + 1)) == dec_val(t.take(j - i)) * 10 + (t[j - i] as int
                - 48));
        }
        if !('0' <= c && c <= '9') {
            proof {
                assert(!is_digit(t[j - i]));
                assert(!all_digits(t));
            }
            return None;
        }
        let w = v * 10 + (c as u64 - 48);
        if w > 0xFFFF_FFFF {
            proof {
                assert(dec_val(t.take(j - i + 1)) == w);
                if all_digits(t) {
                    lemma_dec_val_prefix(t, j - i + 1);
                    assert(dec_val(t) >= w > u32::MAX);
                }
            }
            return None;
        }
        v = w;
        j += 1;
    }
    proof {
        assert(t.take(b - i) =~= t);
    }
    Some(v as u32)
}

/// True when some character of `s` is not ASCII whitespace.
#[verifier::loop_isolation(false)]
pub fn has_nonblank(s: &str) -> (r: bool)
    ensures
        r == exists|i: int| 0 <= i < s@.len() && !is_ws(s@[i]),
{
    let len = s.unicode_len();
    let mut i: usize = 0;
    while i < len
        invariant
            i <= len,
            len == s@.len(),
            forall|k: int| 0 <= k < i ==> is_ws(#[trigger] s@[k]),
        decreases len - i,
    {
        let c = s.get_char(i);
        if !(c == ' ' || c == '\t' || c == '\n' || c == '\r') {
            return true;
        }
        i += 1;
    }
    false
}

/// The bounds of `s` with ASCII whitespace trimmed from both ends: the
/// trimmed text is `s[lo..hi]`, empty when `lo >= hi`.
#[verifier::loop_isolation(false)]
pub fn trim_bounds(s: &str) -> (r: (usize, usize))
    ensures
        r.0 == ws_lo(s@, 0),
        r.1 == ws_hi(s@, s@.len() as int),
        r.0 <= s@.len(),
        r.1 <= s@.len(),
    decreases s@.len(),
{
    let len = s.unicode_len();
    let mut a: usize = 0;
    while a < len
        invariant
            a <= len,
            len == s@.len(),
            ws_lo(s@, 0) == ws_lo(s@, a as int),
        decreases len - a,
    {
        let c = s.get_char(a);
        if !(c == ' ' || c == '\t' || c == '\n' || c == '\r') {
            break ;
        }
        a += 1;
    }
    let mut b: usize = len;
    while b > 0
        invariant
            b <= len,
            len == s@.len(),
            ws_hi(s@, len as int) == ws_hi(s@, b as int),
        decreases b,
    {
        let c = s.get_char(b - 1);
        if !(c == ' ' || c == '\t' || c == '\n' || c == '\r') {
            break ;
        }
        b -= 1;
    }
    (a, b)
}

} // verus!
