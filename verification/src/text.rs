//! Character-level helpers shared by the parsers. Strings are modelled by their `Seq<char>` view.

use vstd::prelude::*;
use vstd::string::StrSliceExecFns;
use vstd::utf8::encode_utf8;

verus! {

/// The characters of `s`, in order.
pub fn chars_of(s: &str) -> (v: Vec<char>)
    ensures
        v@ == s@,
        s@.len() <= usize::MAX,
{
    let mut v: Vec<char> = Vec::new();
    for c in it: s.chars()
        invariant
            v@ == it.seq().take(it.index() as int),
    {
        v.push(c);
    }
    let len = v.len();
    assert(v@.len() == len);
    v
}

/// Appends `c` to `s`.
#[verifier::external_body]
pub fn push_char(s: &mut String, c: char)
    ensures
        final(s)@ == old(s)@.push(c),
{
    s.push(c);
}

/// The views of a sequence of string slices.
pub open spec fn views(parts: Seq<&str>) -> Seq<Seq<char>> {
    parts.map_values(|p: &str| p@)
}

/// `parts` joined with `sep` between consecutive elements.
pub open spec fn join_with(parts: Seq<Seq<char>>, sep: char) -> Seq<char>
    decreases parts.len(),
{
    if parts.len() == 0 {
        Seq::empty()
    } else if parts.len() == 1 {
        parts[0]
    } else {
        parts[0] + seq![sep] + join_with(parts.drop_first(), sep)
    }
}

/// Whether `p` is a prefix of `s`.
pub open spec fn is_prefix(p: Seq<char>, s: Seq<char>) -> bool {
    p.len() <= s.len() && s.subrange(0, p.len() as int) == p
}

/// Whether `p` is a suffix of `s`.
pub open spec fn is_suffix(p: Seq<char>, s: Seq<char>) -> bool {
    p.len() <= s.len() && s.subrange(s.len() - p.len(), s.len() as int) == p
}

/// Whether `a` and `b` agree from position `i` on, over `n` characters of each, `b` read from `j`.
fn same_run(a: &Vec<char>, i: usize, b: &Vec<char>, j: usize, n: usize) -> (r: bool)
    requires
        i + n <= a@.len(),
        j + n <= b@.len(),
    ensures
        r == (a@.subrange(i as int, i + n) == b@.subrange(j as int, j + n)),
{
    let an = a.len();
    let bn = b.len();
    let mut k: usize = 0;
    while k < n
        invariant
            k <= n,
            an == a@.len(),
            bn == b@.len(),
            i + n <= a@.len(),
            j + n <= b@.len(),
            forall|m: int| 0 <= m < k ==> #[trigger] a@.subrange(i as int, i + n)[m] == b@.subrange(j as int, j + n)[m],
        decreases n - k,
    {
        if a[i + k] != b[j + k] {
            assert(a@.subrange(i as int, i + n)[k as int] != b@.subrange(j as int, j + n)[k as int]);
            return false;
        }
        k = k + 1;
    }
    assert(a@.subrange(i as int, i + n) =~= b@.subrange(j as int, j + n));
    true
}

/// `a == b` on string slices.
pub fn str_eq(a: &str, b: &str) -> (r: bool)
    ensures
        r == (a@ == b@),
{
    let x = chars_of(a);
    let y = chars_of(b);
    if x.len() != y.len() {
        return false;
    }
    let r = same_run(&x, 0, &y, 0, x.len());
    assert(x@.subrange(0, x@.len() as int) =~= x@);
    assert(y@.subrange(0, y@.len() as int) =~= y@);
    r
}

/// `str::starts_with` with a string pattern.
pub fn starts_with(s: &str, prefix: &str) -> (r: bool)
    ensures
        r == is_prefix(prefix@, s@),
{
    let x = chars_of(s);
    let p = chars_of(prefix);
    if p.len() > x.len() {
        return false;
    }
    let r = same_run(&x, 0, &p, 0, p.len());
    assert(p@.subrange(0, p@.len() as int) =~= p@);
    r
}

/// `str::ends_with` with a string pattern.
pub fn ends_with(s: &str, suffix: &str) -> (r: bool)
    ensures
        r == is_suffix(suffix@, s@),
{
    let x = chars_of(s);
    let p = chars_of(suffix);
    if p.len() > x.len() {
        return false;
    }
    let r = same_run(&x, x.len() - p.len(), &p, 0, p.len());
    assert(p@.subrange(0, p@.len() as int) =~= p@);
    r
}

/// `str::strip_prefix` with a string pattern: the rest of `s` after `prefix`, if `s` starts
/// with it.
pub fn strip_prefix<'a>(s: &'a str, prefix: &str) -> (r: Option<&'a str>)
    ensures
        r matches Some(rest) ==> s@ == prefix@ + rest@,
        r is Some <==> is_prefix(prefix@, s@),
{
    if starts_with(s, prefix) {
        let rest = s.substring_char(prefix.unicode_len(), s.unicode_len());
        assert(s@ =~= prefix@ + rest@);
        Some(rest)
    } else {
        None
    }
}

/// `str::strip_suffix` with a string pattern: `s` without `suffix`, if `s` ends with it.
pub fn strip_suffix<'a>(s: &'a str, suffix: &str) -> (r: Option<&'a str>)
    ensures
        r matches Some(rest) ==> s@ == rest@ + suffix@,
        r is Some <==> is_suffix(suffix@, s@),
{
    if ends_with(s, suffix) {
        let rest = s.substring_char(0, s.unicode_len() - suffix.unicode_len());
        assert(s@ =~= rest@ + suffix@);
        Some(rest)
    } else {
        None
    }
}

/// A new `String` holding `chars`.
pub fn string_from_chars(chars: &Vec<char>) -> (r: String)
    ensures
        r@ == chars@,
{
    let mut r = String::new();
    let mut i: usize = 0;
    while i < chars.len()
        invariant
            i <= chars.len(),
            r@ == chars@.take(i as int),
        decreases chars.len() - i,
    {
        push_char(&mut r, chars[i]);
        assert(chars@.take(i + 1) =~= chars@.take(i as int).push(chars@[i as int]));
        i = i + 1;
    }
    assert(chars@.take(chars@.len() as int) =~= chars@);
    r
}

/// Appends the characters of `t` to `s`.
pub fn push_str(s: &mut String, t: &str)
    ensures
        final(s)@ == old(s)@ + t@,
{
    let chars = chars_of(t);
    let mut i: usize = 0;
    while i < chars.len()
        invariant
            i <= chars.len(),
            chars@ == t@,
            s@ == old(s)@ + chars@.take(i as int),
        decreases chars.len() - i,
    {
        push_char(s, chars[i]);
        assert(chars@.take(i + 1) =~= chars@.take(i as int).push(chars@[i as int]));
        i = i + 1;
    }
    assert(chars@.take(chars@.len() as int) =~= chars@);
}

/// Whether `c` occurs in `s`.
pub fn contains_char(s: &str, c: char) -> (r: bool)
    ensures
        r == s@.contains(c),
{
    let chars = chars_of(s);
    let mut i: usize = 0;
    while i < chars.len()
        invariant
            i <= chars.len(),
            chars@ == s@,
            forall|k: int| 0 <= k < i ==> chars@[k] != c,
        decreases chars.len() - i,
    {
        if chars[i] == c {
            return true;
        }
        i = i + 1;
    }
    false
}

pub open spec fn is_ascii_digit(c: char) -> bool {
    '0' <= c && c <= '9'
}

pub open spec fn is_ascii_lowercase(c: char) -> bool {
    'a' <= c && c <= 'z'
}

pub open spec fn is_ascii_uppercase(c: char) -> bool {
    'A' <= c && c <= 'Z'
}

pub open spec fn is_ascii_alphanumeric(c: char) -> bool {
    is_ascii_digit(c) || is_ascii_lowercase(c) || is_ascii_uppercase(c)
}

/// The ASCII whitespace of `u8::is_ascii_whitespace`: space, tab, line feed, form feed and
/// carriage return.
pub open spec fn is_ascii_whitespace(c: char) -> bool {
    c == ' ' || c == '\t' || c == '\n' || c == '\x0C' || c == '\r'
}

pub fn char_is_ascii_digit(c: char) -> (r: bool)
    ensures
        r == is_ascii_digit(c),
{
    '0' <= c && c <= '9'
}

pub fn char_is_ascii_lowercase(c: char) -> (r: bool)
    ensures
        r == is_ascii_lowercase(c),
{
    'a' <= c && c <= 'z'
}

pub fn char_is_ascii_alphanumeric(c: char) -> (r: bool)
    ensures
        r == is_ascii_alphanumeric(c),
{
    ('0' <= c && c <= '9') || ('a' <= c && c <= 'z') || ('A' <= c && c <= 'Z')
}

pub fn char_is_ascii_whitespace(c: char) -> (r: bool)
    ensures
        r == is_ascii_whitespace(c),
{
    c == ' ' || c == '\t' || c == '\n' || c == '\x0C' || c == '\r'
}

/// The number of leading characters of `s` from `i` on that equal `c`.
pub open spec fn run_length(s: Seq<char>, i: int, c: char) -> int
    decreases s.len() - i,
{
    if i < 0 || i >= s.len() || s[i] != c {
        0
    } else {
        1 + run_length(s, i + 1, c)
    }
}

/// The number of trailing characters of `s` before `end` that equal `c`.
pub open spec fn back_run_length(s: Seq<char>, end: int, c: char) -> int
    decreases end,
{
    if end <= 0 || end > s.len() || s[end - 1] != c {
        0
    } else {
        1 + back_run_length(s, end - 1, c)
    }
}

pub proof fn lemma_run_length_bounds(s: Seq<char>, i: int, c: char)
    requires
        0 <= i <= s.len(),
    ensures
        0 <= run_length(s, i, c) <= s.len() - i,
    decreases s.len() - i,
{
    if i < s.len() && s[i] == c {
        lemma_run_length_bounds(s, i + 1, c);
    }
}

pub proof fn lemma_back_run_length_bounds(s: Seq<char>, end: int, c: char)
    requires
        0 <= end <= s.len(),
    ensures
        0 <= back_run_length(s, end, c) <= end,
    decreases end,
{
    if end > 0 && s[end - 1] == c {
        lemma_back_run_length_bounds(s, end - 1, c);
    }
}

/// `s` without its leading `c`s (`str::trim_start_matches` with a character).
pub open spec fn trim_start_char(s: Seq<char>, c: char) -> Seq<char> {
    s.subrange(run_length(s, 0, c), s.len() as int)
}

/// `s` without its leading and trailing `c`s (`str::trim_matches` with a character).
pub open spec fn trim_char(s: Seq<char>, c: char) -> Seq<char> {
    let t = trim_start_char(s, c);
    t.subrange(0, t.len() - back_run_length(t, t.len() as int, c))
}

/// `s` without its leading `c`s.
pub fn trim_start_matches_char(s: &str, c: char) -> (r: &str)
    ensures
        r@ == trim_start_char(s@, c),
{
    let chars = chars_of(s);
    let n = chars.len();
    let mut i: usize = 0;
    while i < n && chars[i] == c
        invariant
            n == chars@.len(),
            chars@ == s@,
            0 <= i <= n,
            run_length(s@, 0, c) == i + run_length(s@, i as int, c),
        decreases n - i,
    {
        i = i + 1;
    }
    s.substring_char(i, n)
}

/// `s` without its leading and trailing `c`s.
pub fn trim_matches_char(s: &str, c: char) -> (r: &str)
    ensures
        r@ == trim_char(s@, c),
{
    let t = trim_start_matches_char(s, c);
    let chars = chars_of(t);
    let n = chars.len();
    let mut end: usize = n;
    while end > 0 && chars[end - 1] == c
        invariant
            n == chars@.len(),
            chars@ == t@,
            0 <= end <= n,
            back_run_length(t@, n as int, c) == (n - end) + back_run_length(t@, end as int, c),
        decreases end,
    {
        end = end - 1;
    }
    t.substring_char(0, end)
}

/// Unicode's `White_Space` characters, which `char::is_whitespace` and `str::trim` go by.
pub open spec fn is_whitespace(c: char) -> bool {
    ('\u{9}' <= c && c <= '\u{d}') || c == ' ' || c == '\u{85}' || c == '\u{a0}' || c == '\u{1680}'
        || ('\u{2000}' <= c && c <= '\u{200a}') || c == '\u{2028}' || c == '\u{2029}' || c == '\u{202f}'
        || c == '\u{205f}' || c == '\u{3000}'
}

pub fn char_is_whitespace(c: char) -> (r: bool)
    ensures
        r == is_whitespace(c),
{
    ('\u{9}' <= c && c <= '\u{d}') || c == ' ' || c == '\u{85}' || c == '\u{a0}' || c == '\u{1680}'
        || ('\u{2000}' <= c && c <= '\u{200a}') || c == '\u{2028}' || c == '\u{2029}' || c == '\u{202f}'
        || c == '\u{205f}' || c == '\u{3000}'
}

/// The number of whitespace characters that start `s` from `i` on.
pub open spec fn leading_whitespace(s: Seq<char>, i: int) -> int
    decreases s.len() - i,
{
    if i < 0 || i >= s.len() || !is_whitespace(s[i]) {
        0
    } else {
        1 + leading_whitespace(s, i + 1)
    }
}

/// The number of whitespace characters that end `s` before `end`.
pub open spec fn trailing_whitespace(s: Seq<char>, end: int) -> int
    decreases end,
{
    if end <= 0 || end > s.len() || !is_whitespace(s[end - 1]) {
        0
    } else {
        1 + trailing_whitespace(s, end - 1)
    }
}

/// `s` without leading whitespace (`str::trim_start`).
pub open spec fn trim_start_ws(s: Seq<char>) -> Seq<char> {
    s.subrange(leading_whitespace(s, 0), s.len() as int)
}

/// `s` without leading and trailing whitespace (`str::trim`).
pub open spec fn trim_ws(s: Seq<char>) -> Seq<char> {
    let t = trim_start_ws(s);
    t.subrange(0, t.len() - trailing_whitespace(t, t.len() as int))
}

pub fn trim_start(s: &str) -> (r: &str)
    ensures
        r@ == trim_start_ws(s@),
{
    let chars = chars_of(s);
    let n = chars.len();
    let mut i: usize = 0;
    while i < n && char_is_whitespace(chars[i])
        invariant
            n == chars@.len(),
            chars@ == s@,
            0 <= i <= n,
            leading_whitespace(s@, 0) == i + leading_whitespace(s@, i as int),
        decreases n - i,
    {
        i = i + 1;
    }
    s.substring_char(i, n)
}

pub fn trim(s: &str) -> (r: &str)
    ensures
        r@ == trim_ws(s@),
{
    let t = trim_start(s);
    let chars = chars_of(t);
    let n = chars.len();
    let mut end: usize = n;
    while end > 0 && char_is_whitespace(chars[end - 1])
        invariant
            n == chars@.len(),
            chars@ == t@,
            0 <= end <= n,
            trailing_whitespace(t@, n as int) == (n - end) + trailing_whitespace(t@, end as int),
        decreases end,
    {
        end = end - 1;
    }
    t.substring_char(0, end)
}

/// The UTF-8 encoding of `a + b` is that of `a`, then that of `b`.
pub proof fn lemma_encode_concat(a: Seq<char>, b: Seq<char>)
    ensures
        encode_utf8(a + b) == encode_utf8(a) + encode_utf8(b),
    decreases a.len(),
{
    if a.len() == 0 {
        assert(a + b =~= b);
        assert(encode_utf8(a) + encode_utf8(b) =~= encode_utf8(b));
    } else {
        assert((a + b)[0] == a[0]);
        assert((a + b).drop_first() =~= a.drop_first() + b);
        lemma_encode_concat(a.drop_first(), b);
        assert(encode_utf8(a + b) =~= vstd::utf8::encode_scalar(a[0] as u32) + (encode_utf8(a.drop_first()) + encode_utf8(b)));
    }
}

/// The byte offset of character `i` of `s`: the UTF-8 length of the characters before it, as
/// `str::len` gives it (the whole text's, for a position past its end).
pub open spec fn byte_offset(s: Seq<char>, i: int) -> int {
    (encode_utf8(if 0 <= i <= s.len() { s.subrange(0, i) } else { s }).len() as usize) as int
}

/// The byte offset of character `i` of `s`.
pub fn byte_offset_of(s: &str, i: usize) -> (r: usize)
    ensures
        r == byte_offset(s@, i as int),
{
    if i <= s.unicode_len() {
        s.substring_char(0, i).len()
    } else {
        assert(s@.subrange(0, s@.len() as int) =~= s@);
        s.substring_char(0, s.unicode_len()).len()
    }
}

/// Byte offsets grow with the character position, and stay within the UTF-8 length.
pub proof fn lemma_byte_offset_bounds(s: Seq<char>, i: int, j: int)
    requires
        0 <= i <= j <= s.len(),
        encode_utf8(s).len() <= usize::MAX,
    ensures
        byte_offset(s, i) <= byte_offset(s, j) <= encode_utf8(s).len(),
        byte_offset(s, i) == encode_utf8(s.subrange(0, i)).len(),
{
    lemma_encode_concat(s.subrange(0, i), s.subrange(i, j));
    assert(s.subrange(0, i) + s.subrange(i, j) =~= s.subrange(0, j));
    lemma_encode_concat(s.subrange(0, j), s.subrange(j, s.len() as int));
    assert(s.subrange(0, j) + s.subrange(j, s.len() as int) =~= s);
}

/// The bytes between the byte offsets of characters `i` and `j` encode the characters between
/// them: slicing a `str` at byte offsets gives back the characters.
pub proof fn lemma_byte_slice(s: Seq<char>, i: int, j: int)
    requires
        0 <= i <= j <= s.len(),
        encode_utf8(s).len() <= usize::MAX,
    ensures
        encode_utf8(s).subrange(byte_offset(s, i), byte_offset(s, j)) == encode_utf8(s.subrange(i, j)),
{
    lemma_byte_offset_bounds(s, i, j);
    let a = s.subrange(0, i);
    let b = s.subrange(i, j);
    let c = s.subrange(j, s.len() as int);
    lemma_encode_concat(a, b);
    lemma_encode_concat(a + b, c);
    assert(a + b + c =~= s);
    assert(a + b =~= s.subrange(0, j));
    assert(encode_utf8(s) == encode_utf8(a) + encode_utf8(b) + encode_utf8(c));
    assert((encode_utf8(a) + encode_utf8(b) + encode_utf8(c)).subrange(encode_utf8(a).len() as int, (encode_utf8(a).len() + encode_utf8(b).len()) as int)
        =~= encode_utf8(b));
}

} // verus!
