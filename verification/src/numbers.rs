//! Numbers in text, as `str::parse` reads them: decimal integers with an
//! optional sign, booleans, and the syntax of floating-point literals.

use vstd::prelude::*;

use crate::text::{lowercase, lowercase_chars};

verus! {

pub open spec fn is_digit(c: char) -> bool {
    '0' <= c && c <= '9'
}

pub open spec fn all_digits(s: Seq<char>) -> bool {
    forall|i: int| 0 <= i < s.len() ==> is_digit(#[trigger] s[i])
}

/// The value of a run of decimal digits.
pub open spec fn digits_value(s: Seq<char>) -> nat
    decreases s.len(),
{
    if s.len() == 0 {
        0
    } else {
        digits_value(s.drop_last()) * 10 + ((s.last() as u32) - 48) as nat
    }
}

/// The digits after an optional leading sign character from `signs`.
pub open spec fn after_sign(s: Seq<char>, minus_allowed: bool) -> Seq<char> {
    if s.len() > 0 && (s[0] == '+' || (minus_allowed && s[0] == '-')) {
        s.drop_first()
    } else {
        s
    }
}

/// An unsigned integer as `str::parse` reads it: an optional `+`, one or
/// more decimal digits, and a value not above `max`.
pub open spec fn spec_parse_unsigned(s: Seq<char>, max: nat) -> Option<nat> {
    let d = after_sign(s, false);
    if d.len() > 0 && all_digits(d) && digits_value(d) <= max {
        Some(digits_value(d))
    } else {
        None
    }
}

/// A signed integer as `str::parse` reads it: an optional `+` or `-`, one
/// or more decimal digits, and a value within `min..=max`.
pub open spec fn spec_parse_signed(s: Seq<char>, min: int, max: int) -> Option<int> {
    let d = after_sign(s, true);
    let negative = s.len() > 0 && s[0] == '-';
    let v: int = if negative {
        -(digits_value(d) as int)
    } else {
        digits_value(d) as int
    };
    if d.len() > 0 && all_digits(d) && min <= v && v <= max {
        Some(v)
    } else {
        None
    }
}

proof fn lemma_digits_take(s: Seq<char>, i: int)
    requires
        0 <= i < s.len(),
    ensures
        digits_value(s.take(i + 1)) == digits_value(s.take(i)) * 10 + ((s[i] as u32) - 48) as nat,
{
    assert(s.take(i + 1).drop_last() =~= s.take(i));
}

proof fn lemma_digits_monotone(s: Seq<char>, i: int)
    requires
        0 <= i <= s.len(),
        all_digits(s),
    ensures
        digits_value(s.take(i)) <= digits_value(s),
    decreases s.len() - i,
{
    if i < s.len() {
        lemma_digits_take(s, i);
        lemma_digits_monotone(s, i + 1);
    } else {
        assert(s.take(i) =~= s);
    }
}

/// The value of the digits `s[start..]` when there is at least one, they
/// are all digits and the value is at most `limit`.
fn parse_digits(s: &[char], start: usize, limit: u64) -> (r: Option<u64>)
    requires
        start <= s@.len(),
    ensures
        ({
            let d = s@.skip(start as int);
            r == if d.len() > 0 && all_digits(d) && digits_value(d) <= limit {
                Some(digits_value(d) as u64)
            } else {
                None::<u64>
            }
        }),
{
    let ghost d = s@.skip(start as int);
    if start == s.len() {
        return None;
    }
    let mut value: u64 = 0;
    let mut i: usize = start;
    while i < s.len()
        invariant
            start <= i <= s@.len(),
            d == s@.skip(start as int),
            all_digits(d.take(i - start)),
            value == digits_value(d.take(i - start)),
            value <= limit,
        decreases s.len() - i,
    {
        let c = s[i];
        proof {
            assert(d[i - start] == c);
            lemma_digits_take(d, i - start);
        }
        if !('0' <= c && c <= '9') {
            assert(!all_digits(d)) by {
                assert(!is_digit(d[i - start]));
            }
            return None;
        }
        let digit = (c as u32 - 48) as u64;
        if digit > limit || value > (limit - digit) / 10 {
            proof {
                assert(all_digits(d.take(i - start + 1))) by {
                    assert forall|k: int| 0 <= k < i - start + 1 implies is_digit(#[trigger] d.take(i - start + 1)[k]) by {
                        if k < i - start {
                            assert(d.take(i - start + 1)[k] == d.take(i - start)[k]);
                        }
                    }
                }
                if digit <= limit {
                    assert(value * 10 + digit > limit) by (nonlinear_arith)
                        requires
                            value > (limit - digit) / 10,
                            digit <= limit,
                    ;
                }
                if all_digits(d) {
                    lemma_digits_monotone(d, i - start + 1);
                }
            }
            return None;
        }
        assert(value * 10 + digit <= limit) by (nonlinear_arith)
            requires
                value <= (limit - digit) / 10,
                digit <= limit,
        ;
        value = value * 10 + digit;
        proof {
            assert forall|k: int| 0 <= k < i - start + 1 implies is_digit(#[trigger] d.take(i - start + 1)[k]) by {
                if k < i - start {
                    assert(d.take(i - start + 1)[k] == d.take(i - start)[k]);
                }
            }
        }
        i = i + 1;
    }
    assert(d.take(s.len() - start) =~= d);
    Some(value)
}


/// `str::parse::<u32>`.
pub fn parse_u32(s: &[char]) -> (r: Option<u32>)
    ensures
        r == match spec_parse_unsigned(s@, u32::MAX as nat) {
            Some(v) => Some(v as u32),
            None => None::<u32>,
        },
{
    let start: usize = if s.len() > 0 && s[0] == '+' { 1 } else { 0 };
    assert(after_sign(s@, false) =~= s@.skip(start as int));
    match parse_digits(s, start, 0xffff_ffff) {
        Some(v) => Some(v as u32),
        None => None,
    }
}

/// `str::parse::<u8>`.
pub fn parse_u8(s: &[char]) -> (r: Option<u8>)
    ensures
        r == match spec_parse_unsigned(s@, u8::MAX as nat) {
            Some(v) => Some(v as u8),
            None => None::<u8>,
        },
{
    let start: usize = if s.len() > 0 && s[0] == '+' { 1 } else { 0 };
    assert(after_sign(s@, false) =~= s@.skip(start as int));
    match parse_digits(s, start, 0xff) {
        Some(v) => Some(v as u8),
        None => None,
    }
}

/// `str::parse::<u16>`.
pub fn parse_u16(s: &[char]) -> (r: Option<u16>)
    ensures
        r == match spec_parse_unsigned(s@, u16::MAX as nat) {
            Some(v) => Some(v as u16),
            None => None::<u16>,
        },
{
    let start: usize = if s.len() > 0 && s[0] == '+' { 1 } else { 0 };
    assert(after_sign(s@, false) =~= s@.skip(start as int));
    match parse_digits(s, start, 0xffff) {
        Some(v) => Some(v as u16),
        None => None,
    }
}

/// `str::parse::<i32>`.
pub fn parse_i32(s: &[char]) -> (r: Option<i32>)
    ensures
        r == match spec_parse_signed(s@, i32::MIN as int, i32::MAX as int) {
            Some(v) => Some(v as i32),
            None => None::<i32>,
        },
{
    let negative = s.len() > 0 && s[0] == '-';
    let start: usize = if s.len() > 0 && (s[0] == '+' || s[0] == '-') { 1 } else { 0 };
    assert(after_sign(s@, true) =~= s@.skip(start as int));
    if negative {
        match parse_digits(s, start, 0x8000_0000) {
            Some(v) => Some((0 - (v as i64)) as i32),
            None => None,
        }
    } else {
        match parse_digits(s, start, 0x7fff_ffff) {
            Some(v) => Some(v as i32),
            None => None,
        }
    }
}

/// A boolean as the settings XML writes it: `true` or `1`, `false` or
/// `0`, ignoring surrounding whitespace and ASCII case.
pub open spec fn spec_parse_bool(s: Seq<char>) -> Option<bool> {
    let l = lowercase(crate::text::trim(s));
    if l == "true"@ || l == "1"@ {
        Some(true)
    } else if l == "false"@ || l == "0"@ {
        Some(false)
    } else {
        None
    }
}

pub fn parse_bool(s: &[char]) -> (r: Option<bool>)
    ensures
        r == spec_parse_bool(s@),
{
    let t = crate::text::trim_chars(s);
    let l = lowercase_chars(t.as_slice());
    if crate::text::chars_eq_str(l.as_slice(), "true") || crate::text::chars_eq_str(l.as_slice(), "1") {
        Some(true)
    } else if crate::text::chars_eq_str(l.as_slice(), "false") || crate::text::chars_eq_str(
        l.as_slice(),
        "0",
    ) {
        Some(false)
    } else {
        None
    }
}

/// A character that can stand in the digits part of a decimal literal.
pub open spec fn mantissa_char(c: char) -> bool {
    is_digit(c) || c == '.'
}

/// How many times `c` occurs.
pub open spec fn count_char(m: Seq<char>, c: char) -> nat
    decreases m.len(),
{
    if m.len() == 0 {
        0
    } else {
        count_char(m.drop_last(), c) + if m.last() == c {
            1nat
        } else {
            0nat
        }
    }
}

/// Digits with at most one decimal point and at least one digit.
pub open spec fn is_mantissa(m: Seq<char>) -> bool {
    count_char(m, '.') <= 1 && m.len() > count_char(m, '.')
}

/// `e` or `E`, an optional sign, and one or more digits.
pub open spec fn is_exponent(x: Seq<char>) -> bool {
    x.len() >= 2 && (x[0] == 'e' || x[0] == 'E') && ({
        let d = if x[1] == '+' || x[1] == '-' {
            x.skip(2)
        } else {
            x.skip(1)
        };
        d.len() > 0 && all_digits(d)
    })
}

/// Whether `k` ends the longest run of mantissa characters at the start.
pub open spec fn mantissa_end(b: Seq<char>, k: int) -> bool {
    0 <= k <= b.len() && (forall|i: int| 0 <= i < k ==> mantissa_char(#[trigger] b[i])) && (k
        == b.len() || !mantissa_char(b[k]))
}

/// A decimal literal: mantissa, then an optional exponent.
pub open spec fn is_decimal_literal(b: Seq<char>) -> bool {
    forall|k: int|
        #[trigger] mantissa_end(b, k) ==> is_mantissa(b.take(k)) && (k == b.len() || is_exponent(
            b.skip(k),
        ))
}

/// The text of an `f32` as `str::parse::<f32>` accepts it: an optional
/// sign, then `inf`, `infinity` or `nan` in any ASCII case, or a decimal
/// literal.
pub open spec fn is_float_text(s: Seq<char>) -> bool {
    let b = after_sign(s, true);
    let l = lowercase(b);
    l == "inf"@ || l == "infinity"@ || l == "nan"@ || is_decimal_literal(b)
}

proof fn lemma_count_take(m: Seq<char>, c: char, i: int)
    requires
        0 <= i < m.len(),
    ensures
        count_char(m.take(i + 1), c) == count_char(m.take(i), c) + if m[i] == c {
            1nat
        } else {
            0nat
        },
{
    assert(m.take(i + 1).drop_last() =~= m.take(i));
}

fn check_exponent(x: &[char], start: usize) -> (r: bool)
    requires
        start <= x@.len(),
    ensures
        r == (start == x@.len() || is_exponent(x@.skip(start as int))),
{
    let ghost e = x@.skip(start as int);
    if start == x.len() {
        return true;
    }
    if x.len() - start < 2 || !(x[start] == 'e' || x[start] == 'E') {
        return false;
    }
    let digits_start: usize = if x[start + 1] == '+' || x[start + 1] == '-' {
        start + 2
    } else {
        start + 1
    };
    assert(x@.skip(digits_start as int) =~= if e[1] == '+' || e[1] == '-' {
        e.skip(2)
    } else {
        e.skip(1)
    });
    let mut i = digits_start;
    if i == x.len() {
        return false;
    }
    while i < x.len()
        invariant
            digits_start <= i <= x@.len(),
            start < x@.len(),
            e == x@.skip(start as int),
            e.len() >= 2,
            e[0] == 'e' || e[0] == 'E',
            x@.skip(digits_start as int) == if e[1] == '+' || e[1] == '-' {
                e.skip(2)
            } else {
                e.skip(1)
            },
            forall|k: int| digits_start <= k < i ==> is_digit(#[trigger] x@[k]),
        decreases x.len() - i,
    {
        if !('0' <= x[i] && x[i] <= '9') {
            assert(!is_digit(x@.skip(digits_start as int)[i - digits_start]));
            return false;
        }
        i = i + 1;
    }
    assert(all_digits(x@.skip(digits_start as int))) by {
        assert forall|k: int| 0 <= k < x@.len() - digits_start implies is_digit(#[trigger] x@.skip(digits_start as int)[k]) by {
            assert(x@.skip(digits_start as int)[k] == x@[k + digits_start]);
        }
    }
    true
}

/// Whether the text is one `str::parse::<f32>` accepts.
pub fn check_float_text(s: &[char]) -> (r: bool)
    ensures
        r == is_float_text(s@),
{
    let start: usize = if s.len() > 0 && (s[0] == '+' || s[0] == '-') { 1 } else { 0 };
    let ghost b = s@.skip(start as int);
    assert(after_sign(s@, true) =~= b);
    let mut body: Vec<char> = Vec::new();
    let mut i = start;
    while i < s.len()
        invariant
            start <= i <= s@.len(),
            b == s@.skip(start as int),
            body@ =~= b.take(i - start),
        decreases s.len() - i,
    {
        body.push(s[i]);
        assert(b.take(i - start + 1) =~= b.take(i - start).push(b[i - start]));
        i = i + 1;
    }
    assert(b.take(s.len() - start) =~= b);
    let lower = lowercase_chars(body.as_slice());
    if crate::text::chars_eq_str(lower.as_slice(), "inf") || crate::text::chars_eq_str(
        lower.as_slice(),
        "infinity",
    ) || crate::text::chars_eq_str(lower.as_slice(), "nan") {
        return true;
    }
    let n = body.len();
    let mut k: usize = 0;
    let mut dots: usize = 0;
    while k < n && (('0' <= body[k] && body[k] <= '9') || body[k] == '.')
        invariant
            0 <= k <= n,
            n == b.len(),
            body@ == b,
            forall|j: int| 0 <= j < k ==> mantissa_char(#[trigger] b[j]),
            dots == count_char(b.take(k as int), '.'),
            dots <= k,
        decreases n - k,
    {
        proof {
            lemma_count_take(b, '.', k as int);
        }
        if body[k] == '.' {
            dots = dots + 1;
        }
        k = k + 1;
    }
    proof {
        assert(mantissa_end(b, k as int));
        assert forall|k2: int| #[trigger] mantissa_end(b, k2) implies k2 == k by {
            if k2 < k {
                assert(mantissa_char(b[k2]));
            } else if k2 > k {
                assert(mantissa_char(b[k as int]));
            }
        }
    }
    let mantissa_ok = dots <= 1 && k > dots;
    let exponent_ok = check_exponent(body.as_slice(), k);
    mantissa_ok && exponent_ok
}

} // verus!
