//! What `str::parse` accepts for the number types that class values are checked against.

use vstd::prelude::*;
use crate::text::{chars_of, is_ascii_digit};
use crate::enforce_consistent_class_order::{parse_i128, parse_i128_spec, all_digits, digits_value};

verus! {

/// An unsigned integer as `str::parse` reads it: an optional `+`, then one or more digits, the
/// value at most `max`.
pub open spec fn parse_unsigned_spec(s: Seq<char>, max: int) -> Option<int> {
    if s.len() > 0 && s[0] == '-' {
        None
    } else {
        match parse_i128_spec(s) {
            Some(v) => if 0 <= v <= max { Some(v) } else { None },
            None => None,
        }
    }
}

/// `str::parse::<u32>` on decimal text.
pub fn parse_u32(s: &str) -> (r: Option<u32>)
    ensures
        match r {
            Some(v) => parse_unsigned_spec(s@, u32::MAX as int) == Some(v as int),
            None => parse_unsigned_spec(s@, u32::MAX as int) is None,
        },
{
    let chars = chars_of(s);
    if chars.len() > 0 && chars[0] == '-' {
        return None;
    }
    match parse_i128(s) {
        Some(v) => if 0 <= v && v <= u32::MAX as i128 { Some(v as u32) } else { None },
        None => None,
    }
}

/// Whether `str::parse::<u16>` accepts `s`.
pub fn parses_as_u16(s: &str) -> (r: bool)
    ensures
        r == parse_unsigned_spec(s@, u16::MAX as int) is Some,
{
    let chars = chars_of(s);
    if chars.len() > 0 && chars[0] == '-' {
        return false;
    }
    match parse_i128(s) {
        Some(v) => 0 <= v && v <= u16::MAX as i128,
        None => false,
    }
}

/// Decimal text that a `u64` prints as: digits without a leading zero (but `0` itself), the
/// value in range. This is what `s.parse::<u64>()` reads back to `s` through `to_string`.
pub open spec fn spec_is_canonical_u64(s: Seq<char>) -> bool {
    &&& s.len() > 0
    &&& all_digits(s)
    &&& (s[0] == '0' ==> s.len() == 1)
    &&& digits_value(s) <= u64::MAX
}

pub fn is_canonical_u64(s: &str) -> (r: bool)
    ensures
        r == spec_is_canonical_u64(s@),
{
    let chars = chars_of(s);
    if chars.len() == 0 || chars[0] == '+' || chars[0] == '-' {
        return false;
    }
    if chars[0] == '0' && chars.len() != 1 {
        return false;
    }
    let parsed = parse_i128(s);
    proof {
        let negative = s@.len() > 0 && s@[0] == '-';
        assert(!negative);
        let digits = s@;
        assert(!(s@[0] == '-' || s@[0] == '+'));
    }
    match parsed {
        Some(v) => v <= u64::MAX as i128,
        None => {
            proof {
                if all_digits(s@) && digits_value(s@) <= u64::MAX {
                    crate::enforce_consistent_class_order::lemma_digits_value_nonneg(s@);
                }
            }
            false
        },
    }
}

/// The code of the ASCII lowercase form of `c`.
pub open spec fn ascii_lower(c: char) -> int {
    if 'A' <= c && c <= 'Z' { (c as u32) + 32 } else { c as u32 as int }
}

/// Whether `s` spells `word` (given in lowercase) in any ASCII case.
pub open spec fn eq_ignore_ascii_case(s: Seq<char>, word: Seq<char>) -> bool {
    s.len() == word.len() && forall|i: int| 0 <= i < s.len() ==> ascii_lower(#[trigger] s[i]) == word[i] as u32 as int
}

/// The number of `c` in `s`.
pub open spec fn count_char(s: Seq<char>, c: char) -> nat
    decreases s.len(),
{
    if s.len() == 0 {
        0
    } else {
        count_char(s.drop_last(), c) + if s.last() == c { 1nat } else { 0nat }
    }
}

/// Digits with at most one `.` among them, and at least one digit.
pub open spec fn is_mantissa(m: Seq<char>) -> bool {
    &&& forall|i: int| 0 <= i < m.len() ==> is_ascii_digit(#[trigger] m[i]) || m[i] == '.'
    &&& count_char(m, '.') <= 1
    &&& exists|i: int| 0 <= i < m.len() && is_ascii_digit(#[trigger] m[i])
}

/// Whether every character of `d` is an ASCII digit.
pub open spec fn all_ascii_digits(d: Seq<char>) -> bool {
    forall|i: int| 0 <= i < d.len() ==> is_ascii_digit(#[trigger] d[i])
}

/// An optional sign followed by one or more digits.
pub open spec fn is_exponent(x: Seq<char>) -> bool {
    let digits = if x.len() > 0 && (x[0] == '+' || x[0] == '-') { x.drop_first() } else { x };
    digits.len() > 0 && all_ascii_digits(digits)
}

/// The first `e` or `E` of `s` from `i` on.
pub open spec fn exponent_mark(s: Seq<char>, i: int) -> Option<int>
    decreases s.len() - i,
{
    if i < 0 || i >= s.len() {
        None
    } else if s[i] == 'e' || s[i] == 'E' {
        Some(i)
    } else {
        exponent_mark(s, i + 1)
    }
}

/// A decimal number: a mantissa, then optionally `e` and an exponent.
pub open spec fn is_decimal_number(s: Seq<char>) -> bool {
    match exponent_mark(s, 0) {
        None => is_mantissa(s),
        Some(k) => is_mantissa(s.take(k)) && is_exponent(s.skip(k + 1)),
    }
}

/// Whether `str::parse::<f64>` accepts `s`: an optional sign, then `inf`, `infinity`, `nan` (in
/// any case) or a decimal number. Out-of-range values still parse (to an infinity or zero).
pub open spec fn spec_parses_as_float(s: Seq<char>) -> bool {
    let body = if s.len() > 0 && (s[0] == '+' || s[0] == '-') { s.drop_first() } else { s };
    ||| eq_ignore_ascii_case(body, seq!['i', 'n', 'f'])
    ||| eq_ignore_ascii_case(body, seq!['i', 'n', 'f', 'i', 'n', 'i', 't', 'y'])
    ||| eq_ignore_ascii_case(body, seq!['n', 'a', 'n'])
    ||| is_decimal_number(body)
}

fn lower(c: char) -> (r: u32)
    ensures
        r as int == ascii_lower(c),
{
    if 'A' <= c && c <= 'Z' {
        (c as u32) + 32
    } else {
        c as u32
    }
}

fn matches_word(chars: &Vec<char>, start: usize, word: &Vec<char>) -> (r: bool)
    requires
        start <= chars@.len(),
    ensures
        r == eq_ignore_ascii_case(chars@.skip(start as int), word@),
{
    if chars.len() - start != word.len() {
        return false;
    }
    let mut i: usize = 0;
    while i < word.len()
        invariant
            start <= chars@.len(),
            chars@.len() <= usize::MAX,
            start + word@.len() == chars@.len(),
            i <= word@.len(),
            forall|k: int| 0 <= k < i ==> ascii_lower(#[trigger] chars@.skip(start as int)[k]) == word@[k] as u32 as int,
        decreases word.len() - i,
    {
        if lower(chars[start + i]) != word[i] as u32 {
            assert(chars@.skip(start as int)[i as int] == chars@[start + i]);
            return false;
        }
        assert(chars@.skip(start as int)[i as int] == chars@[start + i]);
        i = i + 1;
    }
    true
}

fn is_mantissa_exec(chars: &Vec<char>, from: usize, to: usize) -> (r: bool)
    requires
        from <= to <= chars@.len(),
    ensures
        r == is_mantissa(chars@.subrange(from as int, to as int)),
{
    let ghost m = chars@.subrange(from as int, to as int);
    let mut dots: usize = 0;
    let mut digit = false;
    let mut i = from;
    while i < to
        invariant
            from <= i <= to <= chars@.len(),
            m == chars@.subrange(from as int, to as int),
            dots == count_char(m.take(i - from), '.'),
            dots <= 1,
            forall|k: int| 0 <= k < i - from ==> is_ascii_digit(#[trigger] m[k]) || m[k] == '.',
            digit == exists|k: int| 0 <= k < i - from && is_ascii_digit(#[trigger] m[k]),
        decreases to - i,
    {
        let c = chars[i];
        assert(m[i - from] == c);
        assert(m.take(i + 1 - from).drop_last() =~= m.take(i - from));
        if '0' <= c && c <= '9' {
            digit = true;
        } else if c == '.' {
            if dots == 1 {
                proof {
                    lemma_count_char_prefix(m, '.', i + 1 - from);
                }
                return false;
            }
            dots = dots + 1;
        } else {
            return false;
        }
        i = i + 1;
    }
    assert(m.take(i - from) =~= m);
    digit
}

pub proof fn lemma_count_char_prefix(s: Seq<char>, c: char, k: int)
    requires
        0 <= k <= s.len(),
    ensures
        count_char(s.take(k), c) <= count_char(s, c),
    decreases s.len() - k,
{
    if k < s.len() {
        lemma_count_char_prefix(s, c, k + 1);
        assert(s.take(k + 1).drop_last() =~= s.take(k));
    } else {
        assert(s.take(k) =~= s);
    }
}

fn is_exponent_exec(chars: &Vec<char>, from: usize) -> (r: bool)
    requires
        from <= chars@.len(),
    ensures
        r == is_exponent(chars@.skip(from as int)),
{
    let ghost x = chars@.skip(from as int);
    assert(x.len() > 0 ==> x[0] == chars@[from as int]);
    let mut start = from;
    if from < chars.len() && (chars[from] == '+' || chars[from] == '-') {
        start = from + 1;
        assert(x.drop_first() =~= chars@.skip(start as int));
    }
    let ghost digits = chars@.skip(start as int);
    assert(digits == (if x.len() > 0 && (x[0] == '+' || x[0] == '-') { x.drop_first() } else { x }));
    if start >= chars.len() {
        return false;
    }
    let mut i = start;
    while i < chars.len()
        invariant
            start <= i <= chars@.len(),
            digits == chars@.skip(start as int),
            x == chars@.skip(from as int),
            digits == (if x.len() > 0 && (x[0] == '+' || x[0] == '-') { x.drop_first() } else { x }),
            forall|k: int| 0 <= k < i - start ==> is_ascii_digit(#[trigger] digits[k]),
        decreases chars.len() - i,
    {
        assert(digits[i - start] == chars@[i as int]);
        if !('0' <= chars[i] && chars[i] <= '9') {
            return false;
        }
        i = i + 1;
    }
    true
}

pub proof fn lemma_exponent_mark_bounds(s: Seq<char>, i: int)
    requires
        0 <= i,
    ensures
        exponent_mark(s, i) matches Some(k) ==> i <= k < s.len(),
    decreases s.len() - i,
{
    if i < s.len() && !(s[i] == 'e' || s[i] == 'E') {
        lemma_exponent_mark_bounds(s, i + 1);
    }
}

/// Whether `str::parse::<f64>` accepts `s`.
pub fn parses_as_float(s: &str) -> (r: bool)
    ensures
        r == spec_parses_as_float(s@),
{
    let chars = chars_of(s);
    let start: usize = if chars.len() > 0 && (chars[0] == '+' || chars[0] == '-') { 1 } else { 0 };
    let ghost body = if s@.len() > 0 && (s@[0] == '+' || s@[0] == '-') { s@.drop_first() } else { s@ };
    assert(body =~= chars@.skip(start as int));
    if matches_word(&chars, start, &vec!['i', 'n', 'f']) || matches_word(&chars, start, &vec!['i', 'n', 'f', 'i', 'n', 'i', 't', 'y'])
        || matches_word(&chars, start, &vec!['n', 'a', 'n']) {
        return true;
    }
    proof {
        lemma_exponent_mark_bounds(body, 0);
    }
    let mut k = start;
    while k < chars.len() && chars[k] != 'e' && chars[k] != 'E'
        invariant
            start <= k <= chars@.len(),
            body == chars@.skip(start as int),
            exponent_mark(body, 0) == exponent_mark(body, k - start),
        decreases chars.len() - k,
    {
        assert(body[k - start] == chars@[k as int]);
        k = k + 1;
    }
    if k == chars.len() {
        assert(exponent_mark(body, k - start) is None);
        assert(body =~= chars@.subrange(start as int, k as int));
        is_mantissa_exec(&chars, start, k)
    } else {
        assert(body[k - start] == chars@[k as int]);
        assert(exponent_mark(body, 0) == Some(k - start));
        assert(body.take(k - start) =~= chars@.subrange(start as int, k as int));
        assert(body.skip(k - start + 1) =~= chars@.skip(k + 1));
        is_mantissa_exec(&chars, start, k) && is_exponent_exec(&chars, k + 1)
    }
}

} // verus!
