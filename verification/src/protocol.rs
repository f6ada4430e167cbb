//! The engine wire protocol.
//!
//! Both transports speak the same JSON shapes: the bridge process prints a
//! JSON array of regions `{"bbox": [[x, y] ...], "text": "...",
//! "confidence": c}`, and the server answers with an envelope
//! `{"status": s, "request_id": id, "results": [regions], "processing_time_ms":
//! t, "model_load_time_ms": u}` whose `results` field alone is handed to the
//! caller.  The grammar here is the protocol's: fields come in the
//! documented order, strings use the standard JSON escapes (including
//! `\uXXXX` and surrogate pairs), coordinates are plain integers that fit an
//! `i32`, and a confidence is a plain decimal between 0 and 1, read in
//! thousandths.  Anything else is a protocol error.
//!
//! Every parsing function is a recursive descent that provably equals its
//! specification, written over the character sequence.

use vstd::prelude::*;
use crate::textutil::{is_digit, dec_val, ws_lo, char_from_u32};
use crate::{OcrResult, RegionV, region_views, point_views};

verus! {

/// The end of the run of decimal digits starting at `i`.
pub open spec fn digits_end(s: Seq<char>, i: int) -> int
    recommends
        0 <= i <= s.len(),
    decreases s.len() - i,
{
    if 0 <= i < s.len() && is_digit(s[i]) {
        digits_end(s, i + 1)
    } else {
        i
    }
}

/// The digits between `i` and `digits_end` really are digits, in bounds.
pub proof fn lemma_digits_end(s: Seq<char>, i: int)
    requires
        0 <= i <= s.len(),
    ensures
        i <= digits_end(s, i) <= s.len(),
        forall|k: int| i <= k < digits_end(s, i) ==> is_digit(#[trigger] s[k]),
    decreases s.len() - i,
{
    if i < s.len() && is_digit(s[i]) {
        lemma_digits_end(s, i + 1);
    }
}

/// The value of one hexadecimal digit, or -1.
pub open spec fn hex_val(c: char) -> int {
    if is_digit(c) {
        c as int - 48
    } else if 'a' <= c && c <= 'f' {
        c as int - 87
    } else if 'A' <= c && c <= 'F' {
        c as int - 55
    } else {
        -1
    }
}

/// The value of four hexadecimal digits at `i`, if they are there.
pub open spec fn hex4(s: Seq<char>, i: int) -> Option<u32> {
    if 0 <= i && i + 4 <= s.len() && hex_val(s[i]) >= 0 && hex_val(s[i + 1]) >= 0 && hex_val(
        s[i + 2],
    ) >= 0 && hex_val(s[i + 3]) >= 0 {
        Some(
            (hex_val(s[i]) * 4096 + hex_val(s[i + 1]) * 256 + hex_val(s[i + 2]) * 16 + hex_val(
                s[i + 3],
            )) as u32,
        )
    } else {
        None
    }
}

/// One escape sequence, entered just after the backslash: the escaped
/// character and the position after it.  A `\uXXXX` high surrogate must be
/// followed by a `\uXXXX` low surrogate; the pair reads as one character.
pub open spec fn sp_escape(s: Seq<char>, i: int) -> Option<(char, int)> {
    if i < 0 || i >= s.len() {
        None
    } else if s[i] == '"' {
        Some(('"', i + 1))
    } else if s[i] == '\\' {
        Some(('\\', i + 1))
    } else if s[i] == '/' {
        Some(('/', i + 1))
    } else if s[i] == 'b' {
        Some(((8u8) as char, i + 1))
    } else if s[i] == 'f' {
        Some(((12u8) as char, i + 1))
    } else if s[i] == 'n' {
        Some(('\n', i + 1))
    } else if s[i] == 'r' {
        Some(('\r', i + 1))
    } else if s[i] == 't' {
        Some(('\t', i + 1))
    } else if s[i] == 'u' {
        match hex4(s, i + 1) {
            None => None,
            Some(u) => if u < 0xD800 || u >= 0xE000 {
                Some((u as char, i + 5))
            } else if u < 0xDC00 {
                if i + 7 <= s.len() && s[i + 5] == '\\' && s[i + 6] == 'u' {
                    match hex4(s, i + 7) {
                        None => None,
                        Some(l) => if 0xDC00 <= l && l < 0xE000 {
                            Some(
                                ((0x10000 + (u - 0xD800) * 0x400 + (l - 0xDC00)) as char, i + 11),
                            )
                        } else {
                            None
                        },
                    }
                } else {
                    None
                }
            } else {
                None
            },
        }
    } else {
        None
    }
}

/// The body of a JSON string, entered just after the opening quote: the
/// decoded characters and the position after the closing quote.  Raw
/// control characters are refused.
pub open spec fn sp_str_body(s: Seq<char>, i: int) -> Option<(Seq<char>, int)>
    recommends
        0 <= i <= s.len(),
    decreases s.len() - i,
{
    if i < 0 || i >= s.len() {
        None
    } else if s[i] == '"' {
        Some((Seq::empty(), i + 1))
    } else if s[i] == '\\' {
        match sp_escape(s, i + 1) {
            None => None,
            Some((c, j)) => if i < j && j <= s.len() {
                match sp_str_body(s, j) {
                    None => None,
                    Some((rest, k)) => Some((seq![c] + rest, k)),
                }
            } else {
                None
            },
        }
    } else if (s[i] as u32) < 32 {
        None
    } else {
        match sp_str_body(s, i + 1) {
            None => None,
            Some((rest, k)) => Some((seq![s[i]] + rest, k)),
        }
    }
}

/// A JSON string at `i`: the decoded characters and the position after it.
pub open spec fn sp_string(s: Seq<char>, i: int) -> Option<(Seq<char>, int)> {
    if 0 <= i < s.len() && s[i] == '"' {
        sp_str_body(s, i + 1)
    } else {
        None
    }
}

/// An integer at `i` that fits an `i32`: optional minus, then digits.
pub open spec fn sp_int(s: Seq<char>, i: int) -> Option<(i32, int)> {
    if i < 0 || i >= s.len() {
        None
    } else {
        let neg = s[i] == '-';
        let st = if neg {
            i + 1
        } else {
            i
        };
        let e = digits_end(s, st);
        if e == st {
            None
        } else {
            let v = dec_val(s.subrange(st, e));
            if neg {
                if v <= 0x8000_0000 {
                    Some(((-v) as i32, e))
                } else {
                    None
                }
            } else {
                if v <= 0x7FFF_FFFF {
                    Some((v as i32, e))
                } else {
                    None
                }
            }
        }
    }
}

/// The thousandths read from a fraction's digits: the first three digits,
/// scaled; further digits are cut off.
pub open spec fn frac3(f: Seq<char>) -> int {
    if f.len() >= 3 {
        dec_val(f.take(3))
    } else if f.len() == 2 {
        dec_val(f) * 10
    } else {
        dec_val(f) * 100
    }
}

/// A confidence at `i`: a plain decimal (digits, optionally a point and
/// more digits) worth at most 1.0, read in thousandths.
pub open spec fn sp_conf(s: Seq<char>, i: int) -> Option<(u32, int)> {
    if i < 0 {
        None
    } else {
        let e1 = digits_end(s, i);
        if e1 == i {
            None
        } else {
            let ip = dec_val(s.subrange(i, e1));
            if e1 < s.len() && s[e1] == '.' {
                let e2 = digits_end(s, e1 + 1);
                if e2 == e1 + 1 {
                    None
                } else {
                    let m = ip * 1000 + frac3(s.subrange(e1 + 1, e2));
                    if m <= 1000 {
                        Some((m as u32, e2))
                    } else {
                        None
                    }
                }
            } else {
                if ip <= 1 {
                    Some(((ip * 1000) as u32, e1))
                } else {
                    None
                }
            }
        }
    }
}

/// A numeric token at `i` (sign, digits, fraction, exponent): the position after it.
pub open spec fn sp_numtoken(s: Seq<char>, i: int) -> Option<int> {
    if i < 0 {
        None
    } else {
        let st = if i < s.len() && s[i] == '-' {
            i + 1
        } else {
            i
        };
        let e1 = digits_end(s, st);
        if e1 == st {
            None
        } else {
            let e2 = if e1 < s.len() && s[e1] == '.' {
                digits_end(s, e1 + 1)
            } else {
                e1
            };
            if e1 < s.len() && s[e1] == '.' && e2 == e1 + 1 {
                None
            } else {
                if e2 < s.len() && (s[e2] == 'e' || s[e2] == 'E') {
                    let sg = if e2 + 1 < s.len() && (s[e2 + 1] == '+' || s[e2 + 1] == '-') {
                        e2 + 2
                    } else {
                        e2 + 1
                    };
                    let e3 = digits_end(s, sg);
                    if e3 == sg {
                        None
                    } else {
                        Some(e3)
                    }
                } else {
                    Some(e2)
                }
            }
        }
    }
}

/// One `[x, y]` point.
pub open spec fn sp_point(s: Seq<char>, i: int) -> Option<(Seq<i32>, int)> {
    if 0 <= i < s.len() && s[i] == '[' {
        let a = ws_lo(s, i + 1);
        match sp_int(s, a) {
            None => None,
            Some((x, p)) => {
                let q = ws_lo(s, p);
                if q < s.len() && s[q] == ',' {
                    let b = ws_lo(s, q + 1);
                    match sp_int(s, b) {
                        None => None,
                        Some((y, p2)) => {
                            let q2 = ws_lo(s, p2);
                            if q2 < s.len() && s[q2] == ']' {
                                Some((seq![x, y], q2 + 1))
                            } else {
                                None
                            }
                        },
                    }
                } else {
                    None
                }
            },
        }
    } else {
        None
    }
}

/// The rest of a point array, entered just after an element: either the
/// closing bracket or a comma and another point, and so on.
pub open spec fn sp_points_rest(s: Seq<char>, i: int) -> Option<(Seq<Seq<i32>>, int)>
    recommends
        0 <= i <= s.len(),
    decreases s.len() - i,
{
    if i < 0 {
        None
    } else {
        let q = ws_lo(s, i);
        if q < s.len() && s[q] == ']' {
            Some((Seq::empty(), q + 1))
        } else if q < s.len() && s[q] == ',' {
            let a = ws_lo(s, q + 1);
            match sp_point(s, a) {
                None => None,
                Some((pt, p)) => if i < p && p <= s.len() {
                    match sp_points_rest(s, p) {
                        None => None,
                        Some((rest, k)) => Some((seq![pt] + rest, k)),
                    }
                } else {
                    None
                },
            }
        } else {
            None
        }
    }
}

/// A bounding polygon: an array of `[x, y]` points.
pub open spec fn sp_bbox(s: Seq<char>, i: int) -> Option<(Seq<Seq<i32>>, int)> {
    if 0 <= i < s.len() && s[i] == '[' {
        let q = ws_lo(s, i + 1);
        if q < s.len() && s[q] == ']' {
            Some((Seq::empty(), q + 1))
        } else {
            match sp_point(s, q) {
                None => None,
                Some((pt, p)) => if p <= s.len() {
                    match sp_points_rest(s, p) {
                        None => None,
                        Some((rest, k)) => Some((seq![pt] + rest, k)),
                    }
                } else {
                    None
                },
            }
        }
    } else {
        None
    }
}

/// One region object, fields in the protocol's order.
pub open spec fn sp_region(s: Seq<char>, i: int) -> Option<(RegionV, int)> {
    if 0 <= i < s.len() && s[i] == '{' {
        match sp_lit(s, ws_lo(s, i + 1), "\"bbox\""@) {
            None => None,
            Some(p1) => {
                let c1 = ws_lo(s, p1);
                if c1 < s.len() && s[c1] == ':' {
                    match sp_bbox(s, ws_lo(s, c1 + 1)) {
                        None => None,
                        Some((bb, p2)) => {
                            let q1 = ws_lo(s, p2);
                            if q1 < s.len() && s[q1] == ',' {
                                match sp_lit(s, ws_lo(s, q1 + 1), "\"text\""@) {
                                    None => None,
                                    Some(p3) => {
                                        let c2 = ws_lo(s, p3);
                                        if c2 < s.len() && s[c2] == ':' {
                                            match sp_string(s, ws_lo(s, c2 + 1)) {
                                                None => None,
                                                Some((tx, p4)) => {
                                                    let q2 = ws_lo(s, p4);
                                                    if q2 < s.len() && s[q2] == ',' {
                                                        match sp_lit(
                                                            s,
                                                            ws_lo(s, q2 + 1),
                                                            "\"confidence\""@,
                                                        ) {
                                                            None => None,
                                                            Some(p5) => {
                                                                let c3 = ws_lo(s, p5);
                                                                if c3 < s.len() && s[c3] == ':' {
                                                                    match sp_conf(
                                                                        s,
                                                                        ws_lo(s, c3 + 1),
                                                                    ) {
                                                                        None => None,
                                                                        Some((cf, p6)) => {
                                                                            let q3 = ws_lo(s, p6);
                                                                            if q3 < s.len() && s[q3]
                                                                                == '}' {
                                                                                Some(
                                                                                    (
                                                                                        RegionV {
                                                                                            bbox: bb,
                                                                                            text: tx,
                                                                                            confidence_milli:
                                                                                                cf,
                                                                                        },
                                                                                        q3 + 1,
                                                                                    ),
                                                                                )
                                                                            } else {
                                                                                None
                                                                            }
                                                                        },
                                                                    }
                                                                } else {
                                                                    None
                                                                }
                                                            },
                                                        }
                                                    } else {
                                                        None
                                                    }
                                                },
                                            }
                                        } else {
                                            None
                                        }
                                    },
                                }
                            } else {
                                None
                            }
                        },
                    }
                } else {
                    None
                }
            },
        }
    } else {
        None
    }
}

/// The literal `lit` standing at `i`: the position after it.
pub open spec fn sp_lit(s: Seq<char>, i: int, lit: Seq<char>) -> Option<int> {
    if 0 <= i && i + lit.len() <= s.len() && s.subrange(i, i + lit.len()) == lit {
        Some(i + lit.len())
    } else {
        None
    }
}

/// The rest of a region array, entered just after an element.
pub open spec fn sp_regions_rest(s: Seq<char>, i: int) -> Option<(Seq<RegionV>, int)>
    recommends
        0 <= i <= s.len(),
    decreases s.len() - i,
{
    if i < 0 {
        None
    } else {
        let q = ws_lo(s, i);
        if q < s.len() && s[q] == ']' {
            Some((Seq::empty(), q + 1))
        } else if q < s.len() && s[q] == ',' {
            let a = ws_lo(s, q + 1);
            match sp_region(s, a) {
                None => None,
                Some((r0, p)) => if i < p && p <= s.len() {
                    match sp_regions_rest(s, p) {
                        None => None,
                        Some((rest, k)) => Some((seq![r0] + rest, k)),
                    }
                } else {
                    None
                },
            }
        } else {
            None
        }
    }
}

/// A region array at `i`.
pub open spec fn sp_regions(s: Seq<char>, i: int) -> Option<(Seq<RegionV>, int)> {
    if 0 <= i < s.len() && s[i] == '[' {
        let q = ws_lo(s, i + 1);
        if q < s.len() && s[q] == ']' {
            Some((Seq::empty(), q + 1))
        } else {
            match sp_region(s, q) {
                None => None,
                Some((r0, p)) => if p <= s.len() {
                    match sp_regions_rest(s, p) {
                        None => None,
                        Some((rest, k)) => Some((seq![r0] + rest, k)),
                    }
                } else {
                    None
                },
            }
        }
    } else {
        None
    }
}

/// A whole bridge answer: one region array and nothing else but whitespace.
pub open spec fn sp_regions_doc(s: Seq<char>) -> Option<Seq<RegionV>> {
    match sp_regions(s, ws_lo(s, 0)) {
        None => None,
        Some((v, p)) => if 0 <= p <= s.len() && ws_lo(s, p) == s.len() {
            Some(v)
        } else {
            None
        },
    }
}

/// A whole server answer: the envelope, fields in the protocol's order; the
/// value handed on is the `results` array.
pub open spec fn sp_envelope_doc(s: Seq<char>) -> Option<Seq<RegionV>> {
    let i = ws_lo(s, 0);
    if 0 <= i < s.len() && s[i] == '{' {
        match sp_lit(s, ws_lo(s, i + 1), "\"status\""@) {
            None => None,
            Some(p1) => match sp_field_string(s, p1) {
                None => None,
                Some(p2) => match sp_lit(s, ws_lo(s, next_comma(s, p2)), "\"request_id\""@) {
                    None => None,
                    Some(p3) => match sp_field_string(s, p3) {
                        None => None,
                        Some(p4) => match sp_lit(s, ws_lo(s, next_comma(s, p4)), "\"results\""@) {
                            None => None,
                            Some(p5) => {
                                let c = ws_lo(s, p5);
                                if c < s.len() && s[c] == ':' {
                                    match sp_regions(s, ws_lo(s, c + 1)) {
                                        None => None,
                                        Some((v, p6)) => match sp_lit(
                                            s,
                                            ws_lo(s, next_comma(s, p6)),
                                            "\"processing_time_ms\""@,
                                        ) {
                                            None => None,
                                            Some(p7) => match sp_field_num(s, p7) {
                                                None => None,
                                                Some(p8) => match sp_lit(
                                                    s,
                                                    ws_lo(s, next_comma(s, p8)),
                                                    "\"model_load_time_ms\""@,
                                                ) {
                                                    None => None,
                                                    Some(p9) => match sp_field_num(s, p9) {
                                                        None => None,
                                                        Some(p10) => {
                                                            let q = ws_lo(s, p10);
                                                            if q < s.len() && s[q] == '}' && ws_lo(
                                                                s,
                                                                q + 1,
                                                            ) == s.len() {
                                                                Some(v)
                                                            } else {
                                                                None
                                                            }
                                                        },
                                                    },
                                                },
                                            },
                                        },
                                    }
                                } else {
                                    None
                                }
                            },
                        },
                    },
                },
            },
        }
    } else {
        None
    }
}

/// After a field name: a colon and a string value; the position after the
/// value, or -1 when the shape is wrong.
pub open spec fn sp_field_string(s: Seq<char>, i: int) -> Option<int> {
    let c = ws_lo(s, i);
    if c < s.len() && s[c] == ':' {
        match sp_string(s, ws_lo(s, c + 1)) {
            None => None,
            Some((_v, p)) => Some(p),
        }
    } else {
        None
    }
}

/// After a field name: a colon and a numeric value; the position after it.
pub open spec fn sp_field_num(s: Seq<char>, i: int) -> Option<int> {
    let c = ws_lo(s, i);
    if c < s.len() && s[c] == ':' {
        sp_numtoken(s, ws_lo(s, c + 1))
    } else {
        None
    }
}

/// The position after a separating comma, or -1 when it is missing; -1 is
/// out of range for every later step, so the parse fails.
pub open spec fn next_comma(s: Seq<char>, i: int) -> int {
    let q = ws_lo(s, i);
    if 0 <= i <= s.len() && q < s.len() && s[q] == ',' {
        q + 1
    } else {
        -1
    }
}

} // verus!

verus! {

/// Skips ASCII whitespace from `i`.
#[verifier::loop_isolation(false)]
fn skip_ws(s: &str, n: usize, i: usize) -> (r: usize)
    requires
        n == s@.len(),
        i <= n,
    ensures
        r as int == ws_lo(s@, i as int),
        i <= r <= n,
{
    let mut j = i;
    while j < n
        invariant
            i <= j <= n,
            ws_lo(s@, i as int) == ws_lo(s@, j as int),
        decreases n - j,
    {
        let c = s.get_char(j);
        if !(c == ' ' || c == '\t' || c == '\n' || c == '\r') {
            return j;
        }
        j += 1;
    }
    j
}

/// Scans the run of decimal digits from `i`.
#[verifier::loop_isolation(false)]
fn scan_digits(s: &str, n: usize, i: usize) -> (r: usize)
    requires
        n == s@.len(),
        i <= n,
    ensures
        r as int == digits_end(s@, i as int),
        i <= r <= n,
{
    let mut j = i;
    while j < n
        invariant
            i <= j <= n,
            digits_end(s@, i as int) == digits_end(s@, j as int),
        decreases n - j,
    {
        let c = s.get_char(j);
        if !('0' <= c && c <= '9') {
            return j;
        }
        j += 1;
    }
    j
}

/// Matches the literal `lit` at `i`.
#[verifier::loop_isolation(false)]
fn p_lit(s: &str, n: usize, i: usize, lit: &str) -> (r: Option<usize>)
    requires
        n == s@.len(),
        i <= n,
    ensures
        match r {
            Some(p) => sp_lit(s@, i as int, lit@) == Some(p as int) && i <= p <= n,
            None => sp_lit(s@, i as int, lit@) is None,
        },
{
    let m = lit.unicode_len();
    if m > n - i {
        return None;
    }
    let mut k: usize = 0;
    while k < m
        invariant
            k <= m,
            m == lit@.len(),
            i + m <= n,
            forall|t: int| 0 <= t < k ==> s@[i + t] == lit@[t],
        decreases m - k,
    {
        let a = s.get_char(i + k);
        let b = lit.get_char(k);
        if a != b {
            proof {
                assert(s@.subrange(i as int, i + m as int)[k as int] == s@[i + k]);
            }
            return None;
        }
        k += 1;
    }
    proof {
        assert(s@.subrange(i as int, i + m as int) =~= lit@);
    }
    Some(i + m)
}

/// The value of one hexadecimal digit character, or -1.
fn hexv(c: char) -> (r: i32)
    ensures
        r == hex_val(c),
{
    if '0' <= c && c <= '9' {
        ((c as u32) as i32) - 48
    } else if 'a' <= c && c <= 'f' {
        ((c as u32) as i32) - 87
    } else if 'A' <= c && c <= 'F' {
        ((c as u32) as i32) - 55
    } else {
        -1
    }
}

/// Reads four hexadecimal digits at `i`.
fn p_hex4(s: &str, n: usize, i: usize) -> (r: Option<u32>)
    requires
        n == s@.len(),
        i <= n,
    ensures
        match r {
            Some(u) => hex4(s@, i as int) == Some(u) && i + 4 <= n && u <= 0xFFFF,
            None => hex4(s@, i as int) is None,
        },
{
    if n - i < 4 {
        return None;
    }
    let v0 = hexv(s.get_char(i));
    let v1 = hexv(s.get_char(i + 1));
    let v2 = hexv(s.get_char(i + 2));
    let v3 = hexv(s.get_char(i + 3));
    if v0 < 0 || v1 < 0 || v2 < 0 || v3 < 0 {
        return None;
    }
    Some((v0 as u32) * 4096 + (v1 as u32) * 256 + (v2 as u32) * 16 + (v3 as u32))
}

/// Reads one escape sequence, entered just after the backslash.
fn p_escape(s: &str, n: usize, i: usize) -> (r: Option<(char, usize)>)
    requires
        n == s@.len(),
        i <= n,
    ensures
        match r {
            Some((c, p)) => sp_escape(s@, i as int) == Some((c, p as int)) && i < p <= n,
            None => sp_escape(s@, i as int) is None,
        },
{
    if i >= n {
        return None;
    }
    let c = s.get_char(i);
    if c == '"' {
        Some(('"', i + 1))
    } else if c == '\\' {
        Some(('\\', i + 1))
    } else if c == '/' {
        Some(('/', i + 1))
    } else if c == 'b' {
        Some(((8u8) as char, i + 1))
    } else if c == 'f' {
        Some(((12u8) as char, i + 1))
    } else if c == 'n' {
        Some(('\n', i + 1))
    } else if c == 'r' {
        Some(('\r', i + 1))
    } else if c == 't' {
        Some(('\t', i + 1))
    } else if c == 'u' {
        match p_hex4(s, n, i + 1) {
            None => None,
            Some(u) => {
                if u < 0xD800 || u >= 0xE000 {
                    match char_from_u32(u) {
                        Some(ch) => Some((ch, i + 5)),
                        None => None,
                    }
                } else if u < 0xDC00 {
                    if n - i >= 7 {
                        let b5 = s.get_char(i + 5);
                        let b6 = s.get_char(i + 6);
                        if b5 == '\\' && b6 == 'u' {
                            match p_hex4(s, n, i + 7) {
                                None => None,
                                Some(l) => {
                                    if 0xDC00 <= l && l < 0xE000 {
                                        let code = 0x10000 + (u - 0xD800) * 0x400 + (l - 0xDC00);
                                        match char_from_u32(code) {
                                            Some(ch) => Some((ch, i + 11)),
                                            None => None,
                                        }
                                    } else {
                                        None
                                    }
                                },
                            }
                        } else {
                            None
                        }
                    } else {
                        None
                    }
                } else {
                    None
                }
            },
        }
    } else {
        None
    }
}

/// Reads a JSON string body, entered just after the opening quote.
fn p_str_body(s: &str, n: usize, i: usize) -> (r: Option<(Vec<char>, usize)>)
    requires
        n == s@.len(),
        i <= n,
    ensures
        match r {
            Some((v, p)) => sp_str_body(s@, i as int) == Some((v@, p as int)) && i < p <= n,
            None => sp_str_body(s@, i as int) is None,
        },
    decreases n - i,
{
    if i >= n {
        return None;
    }
    let c = s.get_char(i);
    if c == '"' {
        let v: Vec<char> = Vec::new();
        proof {
            assert(v@ =~= Seq::<char>::empty());
        }
        Some((v, i + 1))
    } else if c == '\\' {
        match p_escape(s, n, i + 1) {
            None => None,
            Some((e, j)) => {
                match p_str_body(s, n, j) {
                    None => None,
                    Some((mut rest, k)) => {
                        let ghost rest0 = rest@;
                        rest.insert(0, e);
                        proof {
                            assert(rest@ =~= seq![e] + rest0);
                        }
                        Some((rest, k))
                    },
                }
            },
        }
    } else if (c as u32) < 32 {
        None
    } else {
        match p_str_body(s, n, i + 1) {
            None => None,
            Some((mut rest, k)) => {
                let ghost rest0 = rest@;
                rest.insert(0, c);
                proof {
                    assert(rest@ =~= seq![s@[i as int]] + rest0);
                }
                Some((rest, k))
            },
        }
    }
}

/// Reads a JSON string at `i`.
fn p_string(s: &str, n: usize, i: usize) -> (r: Option<(Vec<char>, usize)>)
    requires
        n == s@.len(),
        i <= n,
    ensures
        match r {
            Some((v, p)) => sp_string(s@, i as int) == Some((v@, p as int)) && i < p <= n,
            None => sp_string(s@, i as int) is None,
        },
{
    if i >= n {
        return None;
    }
    let c = s.get_char(i);
    if c == '"' {
        p_str_body(s, n, i + 1)
    } else {
        None
    }
}

/// Reads an integer at `i` that fits an `i32`.
#[verifier::loop_isolation(false)]
fn p_int(s: &str, n: usize, i: usize) -> (r: Option<(i32, usize)>)
    requires
        n == s@.len(),
        i <= n,
    ensures
        match r {
            Some((x, p)) => sp_int(s@, i as int) == Some((x, p as int)) && i < p <= n,
            None => sp_int(s@, i as int) is None,
        },
{
    if i >= n {
        return None;
    }
    let c0 = s.get_char(i);
    let neg = c0 == '-';
    let st = if neg {
        i + 1
    } else {
        i
    };
    if st > n {
        return None;
    }
    let e = scan_digits(s, n, st);
    if e == st {
        return None;
    }
    let ghost d = s@.subrange(st as int, e as int);
    proof {
        lemma_digits_end(s@, st as int);
        assert(forall|t: int| 0 <= t < d.len() ==> is_digit(#[trigger] d[t]));
    }
    let mut v: u64 = 0;
    let mut j = st;
    while j < e
        invariant
            st <= j <= e,
            v == dec_val(s@.subrange(st as int, j as int)),
            v <= 0x8000_0000,
        decreases e - j,
    {
        let c = s.get_char(j);
        proof {
            assert(is_digit(s@[j as int]));
            assert(s@.subrange(st as int, j + 1).drop_last() =~= s@.subrange(st as int, j as int));
            assert(s@.subrange(st as int, j + 1).last() == s@[j as int]);
        }
        let w = v * 10 + (c as u64 - 48);
        if w > 0x8000_0000 {
            proof {
                assert(d.take(j + 1 - st) =~= s@.subrange(st as int, j + 1));
                crate::textutil::lemma_dec_val_prefix(d, j + 1 - st);
            }
            return None;
        }
        v = w;
        j += 1;
    }
    if neg {
        let x = (-(v as i64)) as i32;
        Some((x, e))
    } else {
        if v > 0x7FFF_FFFF {
            return None;
        }
        Some((v as i32, e))
    }
}

/// Reads a confidence at `i`, in thousandths.
#[verifier::loop_isolation(false)]
fn p_conf(s: &str, n: usize, i: usize) -> (r: Option<(u32, usize)>)
    requires
        n == s@.len(),
        i <= n,
    ensures
        match r {
            Some((m, p)) => sp_conf(s@, i as int) == Some((m, p as int)) && i < p <= n && m
                <= 1000,
            None => sp_conf(s@, i as int) is None,
        },
{
    let e1 = scan_digits(s, n, i);
    if e1 == i {
        return None;
    }
    let ghost d = s@.subrange(i as int, e1 as int);
    proof {
        lemma_digits_end(s@, i as int);
        assert(forall|t: int| 0 <= t < d.len() ==> is_digit(#[trigger] d[t]));
    }
    let mut v: u64 = 0;
    let mut j = i;
    while j < e1
        invariant
            i <= j <= e1,
            v == dec_val(s@.subrange(i as int, j as int)),
            v <= 1,
        decreases e1 - j,
    {
        let c = s.get_char(j);
        proof {
            assert(is_digit(s@[j as int]));
            assert(s@.subrange(i as int, j + 1).drop_last() =~= s@.subrange(i as int, j as int));
            assert(s@.subrange(i as int, j + 1).last() == s@[j as int]);
        }
        let w = v * 10 + (c as u64 - 48);
        if w > 1 {
            proof {
                assert(d.take(j + 1 - i) =~= s@.subrange(i as int, j + 1));
                crate::textutil::lemma_dec_val_prefix(d, j + 1 - i);
                let ip = dec_val(d);
                assert(ip > 1);
                if e1 < n && s@[e1 as int] == '.' {
                    lemma_digits_end(s@, e1 as int + 1);
                    let e2g = digits_end(s@, e1 as int + 1);
                    let fr = s@.subrange(e1 as int + 1, e2g);
                    assert(forall|t: int| 0 <= t < fr.len() ==> is_digit(#[trigger] fr[t]));
                    if fr.len() >= 3 {
                        assert(forall|t: int| 0 <= t < fr.take(3).len() ==> is_digit(
                            #[trigger] fr.take(3)[t],
                        ));
                        crate::textutil::lemma_dec_val_nonneg(fr.take(3));
                    } else {
                        crate::textutil::lemma_dec_val_nonneg(fr);
                    }
                }
            }
            return None;
        }
        v = w;
        j += 1;
    }
    if e1 < n {
        let dot = s.get_char(e1);
        if dot == '.' {
            let e2 = scan_digits(s, n, e1 + 1);
            if e2 == e1 + 1 {
                return None;
            }
            let ghost fr = s@.subrange(e1 as int + 1, e2 as int);
            proof {
                lemma_digits_end(s@, e1 as int + 1);
                assert(forall|t: int| 0 <= t < fr.len() ==> is_digit(#[trigger] fr[t]));
            }
            let cnt = e2 - (e1 + 1);
            let d0 = (s.get_char(e1 + 1) as u32) - 48;
            let f3: u32 = if cnt >= 3 {
                let d1 = (s.get_char(e1 + 2) as u32) - 48;
                let d2 = (s.get_char(e1 + 3) as u32) - 48;
                proof {
                    assert(fr.take(3).drop_last() =~= fr.take(2));
                    assert(fr.take(2).drop_last() =~= fr.take(1));
                    assert(fr.take(1).drop_last() =~= fr.take(0));
                    assert(fr.take(0) =~= Seq::<char>::empty());
                    assert(fr.take(3).last() == fr[2]);
                    assert(fr.take(2).last() == fr[1]);
                    assert(fr.take(1).last() == fr[0]);
                    assert(fr[0] == s@[e1 as int + 1]);
                    assert(fr[1] == s@[e1 as int + 2]);
                    assert(fr[2] == s@[e1 as int + 3]);
                }
                let x = d0 * 100 + d1 * 10 + d2;
                proof {
                    reveal_with_fuel(dec_val, 5);
                    assert(dec_val(fr.take(3)) == (fr[0] as int - 48) * 100 + (fr[1] as int - 48)
                        * 10 + (fr[2] as int - 48));
                    assert(x == frac3(fr));
                }
                x
            } else if cnt == 2 {
                let d1 = (s.get_char(e1 + 2) as u32) - 48;
                proof {
                    assert(fr.drop_last() =~= fr.take(1));
                    assert(fr.take(1).drop_last() =~= fr.take(0));
                    assert(fr.take(0) =~= Seq::<char>::empty());
                    assert(fr.take(1).last() == fr[0]);
                    assert(fr[0] == s@[e1 as int + 1]);
                    assert(fr.last() == fr[1]);
                    assert(fr[1] == s@[e1 as int + 2]);
                }
                let x = (d0 * 10 + d1) * 10;
                proof {
                    reveal_with_fuel(dec_val, 5);
                    assert(dec_val(fr) == (fr[0] as int - 48) * 10 + (fr[1] as int - 48));
                    assert(x == frac3(fr));
                }
                x
            } else {
                proof {
                    assert(fr.drop_last() =~= Seq::<char>::empty());
                    assert(fr.last() == fr[0]);
                    assert(fr[0] == s@[e1 as int + 1]);
                }
                let x = d0 * 100;
                proof {
                    reveal_with_fuel(dec_val, 5);
                    assert(dec_val(fr) == fr[0] as int - 48);
                    assert(x == frac3(fr));
                }
                x
            };
            proof {
                assert(f3 == frac3(fr));
            }
            let m = (v as u32) * 1000 + f3;
            if m > 1000 {
                return None;
            }
            return Some((m, e2));
        }
    }
    Some(((v as u32) * 1000, e1))
}

/// Reads a numeric token at `i` (used for the envelope's timing fields).
fn p_numtoken(s: &str, n: usize, i: usize) -> (r: Option<usize>)
    requires
        n == s@.len(),
        i <= n,
    ensures
        match r {
            Some(p) => sp_numtoken(s@, i as int) == Some(p as int) && i <= p <= n,
            None => sp_numtoken(s@, i as int) is None,
        },
{
    let st = if i < n {
        let c = s.get_char(i);
        if c == '-' {
            i + 1
        } else {
            i
        }
    } else {
        i
    };
    let e1 = scan_digits(s, n, st);
    if e1 == st {
        return None;
    }
    let mut e2 = e1;
    if e1 < n {
        let c = s.get_char(e1);
        if c == '.' {
            e2 = scan_digits(s, n, e1 + 1);
            if e2 == e1 + 1 {
                return None;
            }
        }
    }
    if e2 < n {
        let c = s.get_char(e2);
        if c == 'e' || c == 'E' {
            let sg = if e2 + 1 < n {
                let c2 = s.get_char(e2 + 1);
                if c2 == '+' || c2 == '-' {
                    e2 + 2
                } else {
                    e2 + 1
                }
            } else {
                e2 + 1
            };
            if sg > n {
                return None;
            }
            let e3 = scan_digits(s, n, sg);
            if e3 == sg {
                return None;
            }
            return Some(e3);
        }
    }
    Some(e2)
}

} // verus!

verus! {

/// Reads one `[x, y]` point at `i`.
fn p_point(s: &str, n: usize, i: usize) -> (r: Option<(Vec<i32>, usize)>)
    requires
        n == s@.len(),
        i <= n,
    ensures
        match r {
            Some((v, p)) => sp_point(s@, i as int) == Some((v@, p as int)) && i < p <= n,
            None => sp_point(s@, i as int) is None,
        },
{
    if i >= n {
        return None;
    }
    let c = s.get_char(i);
    if c != '[' {
        return None;
    }
    let a = skip_ws(s, n, i + 1);
    match p_int(s, n, a) {
        None => None,
        Some((x, p)) => {
            let q = skip_ws(s, n, p);
            if q >= n {
                return None;
            }
            let c1 = s.get_char(q);
            if c1 != ',' {
                return None;
            }
            let b = skip_ws(s, n, q + 1);
            match p_int(s, n, b) {
                None => None,
                Some((y, p2)) => {
                    let q2 = skip_ws(s, n, p2);
                    if q2 >= n {
                        return None;
                    }
                    let c2 = s.get_char(q2);
                    if c2 != ']' {
                        return None;
                    }
                    let mut pv: Vec<i32> = Vec::new();
                    pv.push(x);
                    pv.push(y);
                    proof {
                        assert(pv@ =~= seq![x, y]);
                    }
                    Some((pv, q2 + 1))
                },
            }
        },
    }
}

/// Reads the rest of a point array, entered just after an element.
fn p_points_rest(s: &str, n: usize, i: usize) -> (r: Option<(Vec<Vec<i32>>, usize)>)
    requires
        n == s@.len(),
        i <= n,
    ensures
        match r {
            Some((v, p)) => sp_points_rest(s@, i as int) == Some((point_views(v@), p as int)) && i
                < p <= n,
            None => sp_points_rest(s@, i as int) is None,
        },
    decreases n - i,
{
    let q = skip_ws(s, n, i);
    if q >= n {
        return None;
    }
    let c = s.get_char(q);
    if c == ']' {
        let v: Vec<Vec<i32>> = Vec::new();
        proof {
            assert(point_views(v@) =~= Seq::<Seq<i32>>::empty());
        }
        return Some((v, q + 1));
    }
    if c != ',' {
        return None;
    }
    let a = skip_ws(s, n, q + 1);
    match p_point(s, n, a) {
        None => None,
        Some((pt, p)) => {
            match p_points_rest(s, n, p) {
                None => None,
                Some((mut rest, k)) => {
                    let ghost rest0 = rest@;
                    rest.insert(0, pt);
                    proof {
                        assert(point_views(rest@) =~= seq![pt@] + point_views(rest0));
                    }
                    Some((rest, k))
                },
            }
        },
    }
}

/// Reads a bounding polygon at `i`.
fn p_bbox(s: &str, n: usize, i: usize) -> (r: Option<(Vec<Vec<i32>>, usize)>)
    requires
        n == s@.len(),
        i <= n,
    ensures
        match r {
            Some((v, p)) => sp_bbox(s@, i as int) == Some((point_views(v@), p as int)) && i < p
                <= n,
            None => sp_bbox(s@, i as int) is None,
        },
{
    if i >= n {
        return None;
    }
    let c = s.get_char(i);
    if c != '[' {
        return None;
    }
    let q = skip_ws(s, n, i + 1);
    if q < n {
        let c1 = s.get_char(q);
        if c1 == ']' {
            let v: Vec<Vec<i32>> = Vec::new();
            proof {
                assert(point_views(v@) =~= Seq::<Seq<i32>>::empty());
            }
            return Some((v, q + 1));
        }
    }
    match p_point(s, n, q) {
        None => None,
        Some((pt, p)) => {
            match p_points_rest(s, n, p) {
                None => None,
                Some((mut rest, k)) => {
                    let ghost rest0 = rest@;
                    rest.insert(0, pt);
                    proof {
                        assert(point_views(rest@) =~= seq![pt@] + point_views(rest0));
                    }
                    Some((rest, k))
                },
            }
        },
    }
}

/// Reads one region object at `i`.
#[verifier::rlimit(40)]
fn p_region(s: &str, n: usize, i: usize) -> (r: Option<(OcrResult, usize)>)
    requires
        n == s@.len(),
        i <= n,
    ensures
        match r {
            Some((reg, p)) => sp_region(s@, i as int) == Some((reg@, p as int)) && i < p <= n,
            None => sp_region(s@, i as int) is None,
        },
{
    if i >= n {
        return None;
    }
    let c = s.get_char(i);
    if c != '{' {
        return None;
    }
    let k1 = skip_ws(s, n, i + 1);
    match p_lit(s, n, k1, "\"bbox\"") {
        None => None,
        Some(p1) => {
            let c1 = skip_ws(s, n, p1);
            if c1 >= n {
                return None;
            }
            if s.get_char(c1) != ':' {
                return None;
            }
            let b1 = skip_ws(s, n, c1 + 1);
            match p_bbox(s, n, b1) {
                None => None,
                Some((bb, p2)) => {
                    let q1 = skip_ws(s, n, p2);
                    if q1 >= n {
                        return None;
                    }
                    if s.get_char(q1) != ',' {
                        return None;
                    }
                    let k2 = skip_ws(s, n, q1 + 1);
                    match p_lit(s, n, k2, "\"text\"") {
                        None => None,
                        Some(p3) => {
                            let c2 = skip_ws(s, n, p3);
                            if c2 >= n {
                                return None;
                            }
                            if s.get_char(c2) != ':' {
                                return None;
                            }
                            let t1 = skip_ws(s, n, c2 + 1);
                            match p_string(s, n, t1) {
                                None => None,
                                Some((tx, p4)) => {
                                    let q2 = skip_ws(s, n, p4);
                                    if q2 >= n {
                                        return None;
                                    }
                                    if s.get_char(q2) != ',' {
                                        return None;
                                    }
                                    let k3 = skip_ws(s, n, q2 + 1);
                                    match p_lit(s, n, k3, "\"confidence\"") {
                                        None => None,
                                        Some(p5) => {
                                            let c3 = skip_ws(s, n, p5);
                                            if c3 >= n {
                                                return None;
                                            }
                                            if s.get_char(c3) != ':' {
                                                return None;
                                            }
                                            let f1 = skip_ws(s, n, c3 + 1);
                                            match p_conf(s, n, f1) {
                                                None => None,
                                                Some((cf, p6)) => {
                                                    let q3 = skip_ws(s, n, p6);
                                                    if q3 >= n {
                                                        return None;
                                                    }
                                                    if s.get_char(q3) != '}' {
                                                        return None;
                                                    }
                                                    let text = crate::textutil::string_from_chars(
                                                        &tx,
                                                    );
                                                    let reg = OcrResult {
                                                        bbox: bb,
                                                        text,
                                                        confidence_milli: cf,
                                                    };
                                                    proof {
                                                        assert(reg@ == RegionV {
                                                            bbox: point_views(bb@),
                                                            text: tx@,
                                                            confidence_milli: cf,
                                                        });
                                                    }
                                                    Some((reg, q3 + 1))
                                                },
                                            }
                                        },
                                    }
                                },
                            }
                        },
                    }
                },
            }
        },
    }
}

/// Reads the rest of a region array, entered just after an element.
fn p_regions_rest(s: &str, n: usize, i: usize) -> (r: Option<(Vec<OcrResult>, usize)>)
    requires
        n == s@.len(),
        i <= n,
    ensures
        match r {
            Some((v, p)) => sp_regions_rest(s@, i as int) == Some((region_views(v@), p as int))
                && i < p <= n,
            None => sp_regions_rest(s@, i as int) is None,
        },
    decreases n - i,
{
    let q = skip_ws(s, n, i);
    if q >= n {
        return None;
    }
    let c = s.get_char(q);
    if c == ']' {
        let v: Vec<OcrResult> = Vec::new();
        proof {
            assert(region_views(v@) =~= Seq::<RegionV>::empty());
        }
        return Some((v, q + 1));
    }
    if c != ',' {
        return None;
    }
    let a = skip_ws(s, n, q + 1);
    match p_region(s, n, a) {
        None => None,
        Some((r0, p)) => {
            match p_regions_rest(s, n, p) {
                None => None,
                Some((mut rest, k)) => {
                    let ghost rest0 = rest@;
                    rest.insert(0, r0);
                    proof {
                        assert(region_views(rest@) =~= seq![r0@] + region_views(rest0));
                    }
                    Some((rest, k))
                },
            }
        },
    }
}

/// Reads a region array at `i`.
fn p_regions(s: &str, n: usize, i: usize) -> (r: Option<(Vec<OcrResult>, usize)>)
    requires
        n == s@.len(),
        i <= n,
    ensures
        match r {
            Some((v, p)) => sp_regions(s@, i as int) == Some((region_views(v@), p as int)) && i
                < p <= n,
            None => sp_regions(s@, i as int) is None,
        },
{
    if i >= n {
        return None;
    }
    let c = s.get_char(i);
    if c != '[' {
        return None;
    }
    let q = skip_ws(s, n, i + 1);
    if q < n {
        let c1 = s.get_char(q);
        if c1 == ']' {
            let v: Vec<OcrResult> = Vec::new();
            proof {
                assert(region_views(v@) =~= Seq::<RegionV>::empty());
            }
            return Some((v, q + 1));
        }
    }
    match p_region(s, n, q) {
        None => None,
        Some((r0, p)) => {
            match p_regions_rest(s, n, p) {
                None => None,
                Some((mut rest, k)) => {
                    let ghost rest0 = rest@;
                    rest.insert(0, r0);
                    proof {
                        assert(region_views(rest@) =~= seq![r0@] + region_views(rest0));
                    }
                    Some((rest, k))
                },
            }
        },
    }
}

/// Parses a whole bridge answer: a region array and nothing else.
pub fn parse_regions(s: &str) -> (r: Option<Vec<OcrResult>>)
    ensures
        match r {
            Some(v) => sp_regions_doc(s@) == Some(region_views(v@)),
            None => sp_regions_doc(s@) is None,
        },
{
    let n = s.unicode_len();
    let a = skip_ws(s, n, 0);
    match p_regions(s, n, a) {
        None => None,
        Some((v, p)) => {
            let q = skip_ws(s, n, p);
            if q == n {
                Some(v)
            } else {
                None
            }
        },
    }
}

/// Reads a separating comma; the position after it.
fn p_comma(s: &str, n: usize, i: usize) -> (r: Option<usize>)
    requires
        n == s@.len(),
        i <= n,
    ensures
        match r {
            Some(p) => next_comma(s@, i as int) == p as int && i <= p <= n,
            None => next_comma(s@, i as int) == -1,
        },
{
    let q = skip_ws(s, n, i);
    if q >= n {
        return None;
    }
    if s.get_char(q) != ',' {
        return None;
    }
    Some(q + 1)
}

/// Reads a colon and a string value after a field name.
fn p_field_string(s: &str, n: usize, i: usize) -> (r: Option<usize>)
    requires
        n == s@.len(),
        i <= n,
    ensures
        match r {
            Some(p) => sp_field_string(s@, i as int) == Some(p as int) && i < p <= n,
            None => sp_field_string(s@, i as int) is None,
        },
{
    let c = skip_ws(s, n, i);
    if c >= n {
        return None;
    }
    if s.get_char(c) != ':' {
        return None;
    }
    let a = skip_ws(s, n, c + 1);
    match p_string(s, n, a) {
        None => None,
        Some((_v, p)) => Some(p),
    }
}

/// Reads a colon and a numeric value after a field name.
fn p_field_num(s: &str, n: usize, i: usize) -> (r: Option<usize>)
    requires
        n == s@.len(),
        i <= n,
    ensures
        match r {
            Some(p) => sp_field_num(s@, i as int) == Some(p as int) && i <= p <= n,
            None => sp_field_num(s@, i as int) is None,
        },
{
    let c = skip_ws(s, n, i);
    if c >= n {
        return None;
    }
    if s.get_char(c) != ':' {
        return None;
    }
    let a = skip_ws(s, n, c + 1);
    p_numtoken(s, n, a)
}

/// Parses a whole server answer and hands back its `results` regions.
#[verifier::rlimit(60)]
pub fn parse_envelope(s: &str) -> (r: Option<Vec<OcrResult>>)
    ensures
        match r {
            Some(v) => sp_envelope_doc(s@) == Some(region_views(v@)),
            None => sp_envelope_doc(s@) is None,
        },
{
    let n = s.unicode_len();
    let i = skip_ws(s, n, 0);
    if i >= n {
        return None;
    }
    if s.get_char(i) != '{' {
        return None;
    }
    let k1 = skip_ws(s, n, i + 1);
    let Some(p1) = p_lit(s, n, k1, "\"status\"") else {
        return None;
    };
    let Some(p2) = p_field_string(s, n, p1) else {
        return None;
    };
    let Some(m1) = p_comma(s, n, p2) else {
        proof {
            assert(ws_lo(s@, -1) == -1);
        }
        return None;
    };
    let k2 = skip_ws(s, n, m1);
    let Some(p3) = p_lit(s, n, k2, "\"request_id\"") else {
        return None;
    };
    let Some(p4) = p_field_string(s, n, p3) else {
        return None;
    };
    let Some(m2) = p_comma(s, n, p4) else {
        proof {
            assert(ws_lo(s@, -1) == -1);
        }
        return None;
    };
    let k3 = skip_ws(s, n, m2);
    let Some(p5) = p_lit(s, n, k3, "\"results\"") else {
        return None;
    };
    let c = skip_ws(s, n, p5);
    if c >= n {
        return None;
    }
    if s.get_char(c) != ':' {
        return None;
    }
    let a = skip_ws(s, n, c + 1);
    let Some((v, p6)) = p_regions(s, n, a) else {
        return None;
    };
    let Some(m3) = p_comma(s, n, p6) else {
        proof {
            assert(ws_lo(s@, -1) == -1);
        }
        return None;
    };
    let k4 = skip_ws(s, n, m3);
    let Some(p7) = p_lit(s, n, k4, "\"processing_time_ms\"") else {
        return None;
    };
    let Some(p8) = p_field_num(s, n, p7) else {
        return None;
    };
    let Some(m4) = p_comma(s, n, p8) else {
        proof {
            assert(ws_lo(s@, -1) == -1);
        }
        return None;
    };
    let k5 = skip_ws(s, n, m4);
    let Some(p9) = p_lit(s, n, k5, "\"model_load_time_ms\"") else {
        return None;
    };
    let Some(p10) = p_field_num(s, n, p9) else {
        return None;
    };
    let q = skip_ws(s, n, p10);
    if q >= n {
        return None;
    }
    if s.get_char(q) != '}' {
        return None;
    }
    let z = skip_ws(s, n, q + 1);
    if z == n {
        Some(v)
    } else {
        None
    }
}

} // verus!

verus! {

/// A lower-case hexadecimal digit character.
pub open spec fn hexdig_lower(d: int) -> char
    recommends
        0 <= d <= 15,
{
    if d < 10 {
        ((48 + d) as u8) as char
    } else {
        ((87 + d) as u8) as char
    }
}

/// The JSON escape of one character, as the compact serializers write it:
/// quote and backslash escaped, the five short control escapes, `\u00XX`
/// for the other control characters, and every other character as itself.
pub open spec fn esc_char(c: char) -> Seq<char> {
    if c == '"' {
        seq!['\\', '"']
    } else if c == '\\' {
        seq!['\\', '\\']
    } else if c == (8u8) as char {
        seq!['\\', 'b']
    } else if c == '\t' {
        seq!['\\', 't']
    } else if c == '\n' {
        seq!['\\', 'n']
    } else if c == (12u8) as char {
        seq!['\\', 'f']
    } else if c == '\r' {
        seq!['\\', 'r']
    } else if (c as u32) < 32 {
        seq!['\\', 'u', '0', '0', hexdig_lower(c as int / 16), hexdig_lower(c as int % 16)]
    } else {
        seq![c]
    }
}

/// The JSON escape of a whole string body.
pub open spec fn json_escaped(s: Seq<char>) -> Seq<char>
    decreases s.len(),
{
    if s.len() == 0 {
        Seq::empty()
    } else {
        json_escaped(s.drop_last()) + esc_char(s.last())
    }
}

/// Appends the JSON escape of `s` to `out`.
#[verifier::loop_isolation(false)]
pub fn append_json_escaped(out: &mut Vec<char>, s: &str)
    ensures
        final(out)@ == old(out)@ + json_escaped(s@),
{
    let len = s.unicode_len();
    let mut i: usize = 0;
    while i < len
        invariant
            i <= len,
            len == s@.len(),
            out@ == old(out)@ + json_escaped(s@.take(i as int)),
        decreases len - i,
    {
        let c = s.get_char(i);
        if c == '"' {
            out.push('\\');
            out.push('"');
        } else if c == '\\' {
            out.push('\\');
            out.push('\\');
        } else if c == (8u8) as char {
            out.push('\\');
            out.push('b');
        } else if c == '\t' {
            out.push('\\');
            out.push('t');
        } else if c == '\n' {
            out.push('\\');
            out.push('n');
        } else if c == (12u8) as char {
            out.push('\\');
            out.push('f');
        } else if c == '\r' {
            out.push('\\');
            out.push('r');
        } else if (c as u32) < 32 {
            out.push('\\');
            out.push('u');
            out.push('0');
            out.push('0');
            let hi = (c as u32) / 16;
            let lo = (c as u32) % 16;
            let hc: char = if hi < 10 {
                (48 + hi as u8) as char
            } else {
                (87 + hi as u8) as char
            };
            let lc: char = if lo < 10 {
                (48 + lo as u8) as char
            } else {
                (87 + lo as u8) as char
            };
            out.push(hc);
            out.push(lc);
        } else {
            out.push(c);
        }
        proof {
            assert(s@.take(i + 1).drop_last() =~= s@.take(i as int));
            assert(s@.take(i + 1).last() == s@[i as int]);
            assert(out@ =~= old(out)@ + json_escaped(s@.take(i + 1)));
        }
        i += 1;
    }
    proof {
        assert(s@.take(len as int) =~= s@);
    }
}

} // verus!
