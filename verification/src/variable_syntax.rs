//! The text rewrites of the variable-syntax rule: Tailwind v4's `(--name)` shorthand against the
//! explicit `[var(--name)]` spelling.

use vstd::prelude::*;
use vstd::string::StrSliceExecFns;
use crate::text::{is_prefix, chars_of, is_ascii_alphanumeric, char_is_ascii_alphanumeric, push_char, push_str, trim_char, trim_start_char, trim_matches_char, trim_start_matches_char, strip_prefix, strip_suffix};

verus! {

/// The first bracket group of `s` that closes, scanning from `i` at nesting `depth` with the
/// current group opened at `start`: the positions of its opening and closing brackets.
/// Closers outside every group are ignored.
pub open spec fn balanced_from(s: Seq<char>, open: char, close: char, i: int, depth: nat, start: int) -> Option<(int, int)>
    decreases s.len() - i,
{
    if i < 0 || i >= s.len() {
        None
    } else if s[i] == open {
        balanced_from(s, open, close, i + 1, depth + 1, if depth == 0 { i } else { start })
    } else if s[i] == close && depth > 0 {
        if depth == 1 {
            Some((start, i))
        } else {
            balanced_from(s, open, close, i + 1, (depth - 1) as nat, start)
        }
    } else {
        balanced_from(s, open, close, i + 1, depth, start)
    }
}

pub open spec fn spec_balanced(s: Seq<char>, open: char, close: char) -> Option<(int, int)> {
    balanced_from(s, open, close, 0, 0, 0)
}

pub proof fn lemma_balanced_bounds(s: Seq<char>, open: char, close: char, i: int, depth: nat, start: int)
    requires
        0 <= i,
        depth > 0 ==> 0 <= start < i && start < s.len() && s[start] == open,
    ensures
        balanced_from(s, open, close, i, depth, start) matches Some((a, b)) ==> 0 <= a < b < s.len()
            && s[a] == open && s[b] == close,
    decreases s.len() - i,
{
    if 0 <= i < s.len() {
        if s[i] == open {
            lemma_balanced_bounds(s, open, close, i + 1, depth + 1, if depth == 0 { i } else { start });
        } else if s[i] == close && depth > 0 {
            if depth != 1 {
                lemma_balanced_bounds(s, open, close, i + 1, (depth - 1) as nat, start);
            }
        } else {
            lemma_balanced_bounds(s, open, close, i + 1, depth, start);
        }
    }
}

/// The opening and closing positions (in characters) of the first bracket group of `value`
/// that closes.
pub fn balanced(value: &str, open: char, close: char) -> (r: Option<(usize, usize)>)
    ensures
        match r {
            Some((a, b)) => spec_balanced(value@, open, close) == Some((a as int, b as int)) && a < b < value@.len(),
            None => spec_balanced(value@, open, close) is None,
        },
        value@.len() <= usize::MAX,
{
    proof {
        lemma_balanced_bounds(value@, open, close, 0, 0, 0);
    }
    let chars = chars_of(value);
    let n = chars.len();
    let mut depth: usize = 0;
    let mut start: usize = 0;
    let mut index: usize = 0;
    while index < n
        invariant
            n == chars@.len(),
            chars@ == value@,
            index <= n,
            depth <= index,
            spec_balanced(value@, open, close) == balanced_from(value@, open, close, index as int, depth as nat, start as int),
            spec_balanced(value@, open, close) matches Some((a, b)) ==> a < b < value@.len(),
        decreases n - index,
    {
        let c = chars[index];
        if c == open {
            if depth == 0 {
                start = index;
            }
            depth = depth + 1;
        } else if c == close && depth > 0 {
            depth = depth - 1;
            if depth == 0 {
                return Some((start, index));
            }
        }
        index = index + 1;
    }
    None
}

/// `value` with the characters in `start..end` replaced by `replacement`.
pub open spec fn spec_replace_range(value: Seq<char>, start: int, end: int, replacement: Seq<char>) -> Seq<char> {
    value.subrange(0, start) + replacement + value.subrange(end, value.len() as int)
}

/// `value` with the characters in `start..end` replaced by `replacement`.
pub fn replace_range(value: &str, start: usize, end: usize, replacement: &str) -> (r: String)
    requires
        start <= end <= value@.len(),
    ensures
        r@ == spec_replace_range(value@, start as int, end as int, replacement@),
{
    let n = value.unicode_len();
    let mut output = value.substring_char(0, start).to_owned();
    push_str(&mut output, replacement);
    push_str(&mut output, value.substring_char(end, n));
    output
}

/// The number of non-overlapping `--` found scanning `s` left to right from `i`.
pub open spec fn double_dash_count(s: Seq<char>, i: int) -> int
    decreases s.len() - i,
{
    if i < 0 || i + 1 >= s.len() {
        0
    } else if s[i] == '-' && s[i + 1] == '-' {
        1 + double_dash_count(s, i + 2)
    } else {
        double_dash_count(s, i + 1)
    }
}

/// The first position of `c` in `s` at or after `i`.
pub open spec fn first_index_from(s: Seq<char>, i: int, c: char) -> Option<int>
    decreases s.len() - i,
{
    if i < 0 || i >= s.len() {
        None
    } else if s[i] == c {
        Some(i)
    } else {
        first_index_from(s, i + 1, c)
    }
}

pub open spec fn is_identifier_char(c: char) -> bool {
    is_ascii_alphanumeric(c) || c == '_' || c == '-'
}

/// Whether `s` is a nonempty run of identifier characters.
pub open spec fn is_function_name(s: Seq<char>) -> bool {
    s.len() > 0 && forall|k: int| 0 <= k < s.len() ==> is_identifier_char(#[trigger] s[k])
}

/// Whether `value` is the shorthand spelling of a CSS variable: after leading underscores it
/// starts with `--`, holds no second `--`, and does not read as a function call such as
/// `--spacing(4)`.
pub open spec fn spec_is_shorthand(value: Seq<char>) -> bool {
    let t = trim_start_char(value, '_');
    &&& double_dash_count(t, 0) < 2
    &&& t.len() >= 2 && t[0] == '-' && t[1] == '-'
    &&& match first_index_from(t, 2, '(') {
        Some(p) => !is_function_name(t.subrange(2, p)),
        None => true,
    }
}

proof fn lemma_double_dash_count_nonneg(s: Seq<char>, i: int)
    ensures
        double_dash_count(s, i) >= 0,
    decreases s.len() - i,
{
    if 0 <= i && i + 1 < s.len() {
        if s[i] == '-' && s[i + 1] == '-' {
            lemma_double_dash_count_nonneg(s, i + 2);
        } else {
            lemma_double_dash_count_nonneg(s, i + 1);
        }
    }
}

pub fn is_shorthand(value: &str) -> (r: bool)
    ensures
        r == spec_is_shorthand(value@),
{
    let trimmed = trim_start_matches_char(value, '_');
    let t = chars_of(trimmed);
    let n = t.len();
    let mut count: usize = 0;
    let mut i: usize = 0;
    while n > 0 && i < n - 1 && count < 2
        invariant
            n == t@.len(),
            t@ == trimmed@,
            count <= 2,
            i <= n,
            double_dash_count(t@, 0) == count + double_dash_count(t@, i as int),
        decreases n - i,
    {
        if t[i] == '-' && t[i + 1] == '-' {
            count = count + 1;
            i = i + 2;
        } else {
            i = i + 1;
        }
    }
    if count >= 2 {
        proof {
            lemma_double_dash_count_nonneg(t@, i as int);
        }
        return false;
    }
    proof {
        if i + 1 < n {
            assert(false);
        }
        assert(double_dash_count(t@, i as int) == 0);
    }
    if n < 2 || t[0] != '-' || t[1] != '-' {
        return false;
    }
    let mut p: usize = 2;
    while p < n && t[p] != '('
        invariant
            n == t@.len(),
            2 <= p <= n,
            first_index_from(t@, 2, '(') == first_index_from(t@, p as int, '('),
        decreases n - p,
    {
        p = p + 1;
    }
    if p == n {
        return true;
    }
    if p == 2 {
        return true;
    }
    let mut k: usize = 2;
    while k < p
        invariant
            n == t@.len(),
            t@ == trimmed@,
            trimmed@ == trim_start_char(value@, '_'),
            2 <= k <= p < n,
            t@[0] == '-' && t@[1] == '-',
            double_dash_count(t@, 0) < 2,
            first_index_from(t@, 2, '(') == Some(p as int),
            forall|j: int| 2 <= j < k ==> is_identifier_char(#[trigger] t@[j]),
        decreases p - k,
    {
        let c = t[k];
        if !(char_is_ascii_alphanumeric(c) || c == '_' || c == '-') {
            assert(!is_identifier_char(t@.subrange(2, p as int)[k - 2]));
            return true;
        }
        k = k + 1;
    }
    assert(is_function_name(t@.subrange(2, p as int)));
    false
}

pub open spec fn var_open() -> Seq<char> {
    seq!['v', 'a', 'r', '(']
}

/// The variable that `value` names when it is exactly one `var(...)` call around a shorthand.
pub open spec fn spec_single_variable(value: Seq<char>) -> Option<Seq<char>> {
    if is_prefix(var_open(), value) && value.len() >= 5 && value.last() == ')' {
        let inner = value.subrange(4, value.len() - 1);
        match spec_balanced(value, '(', ')') {
            Some((_, end)) => if end + 1 == value.len() && spec_is_shorthand(inner) {
                Some(inner)
            } else {
                None
            },
            None => None,
        }
    } else {
        None
    }
}

pub fn single_variable(value: &str) -> (r: Option<&str>)
    ensures
        match r {
            Some(v) => spec_single_variable(value@) == Some(v@),
            None => spec_single_variable(value@) is None,
        },
{
    proof {
        reveal_strlit("var(");
        reveal_strlit(")");
        assert("var("@ =~= var_open());
        assert(")"@ =~= seq![')']);
    }
    let rest = match strip_prefix(value, "var(") {
        Some(rest) => rest,
        None => return None,
    };
    let inner = match strip_suffix(rest, ")") {
        Some(inner) => inner,
        None => {
            proof {
                assert(rest@ =~= value@.subrange(4, value@.len() as int));
                if value@.len() >= 5 && value@.last() == ')' {
                    assert(rest@.subrange(rest@.len() - 1, rest@.len() as int) =~= seq![')']);
                }
            }
            return None;
        },
    };
    assert(value@.subrange(4, value@.len() - 1) =~= inner@);
    let end = match balanced(value, '(', ')') {
        Some((_, end)) => end,
        None => return None,
    };
    let len = value.unicode_len();
    if end + 1 == len && is_shorthand(inner) {
        Some(inner)
    } else {
        None
    }
}

/// The shorthand spelling of the first bracketed arbitrary value of `base`, when that value is
/// one `var(...)` call around a variable or already reads as a shorthand variable.
pub open spec fn spec_to_shorthand(base: Seq<char>) -> Option<Seq<char>> {
    match spec_balanced(base, '[', ']') {
        None => None,
        Some((start, end)) => {
            let inner = base.subrange(start + 1, end);
            let shorthand = match spec_single_variable(inner) {
                Some(variable) => Some(trim_char(variable, '_')),
                None => if spec_is_shorthand(inner) { Some(inner) } else { None },
            };
            match shorthand {
                Some(shorthand) => Some(spec_replace_range(base, start, end + 1, seq!['('] + shorthand + seq![')'])),
                None => None,
            }
        },
    }
}

/// Rewrites `fill-[var(--brand)]` as `fill-(--brand)`.
pub fn to_shorthand(base: &str) -> (r: Option<String>)
    ensures
        match r {
            Some(t) => spec_to_shorthand(base@) == Some(t@),
            None => spec_to_shorthand(base@) is None,
        },
{
    let (start, end) = match balanced(base, '[', ']') {
        Some(found) => found,
        None => return None,
    };
    let inner = base.substring_char(start + 1, end);
    let shorthand = match single_variable(inner) {
        Some(variable) => trim_matches_char(variable, '_'),
        None => {
            if is_shorthand(inner) {
                inner
            } else {
                return None;
            }
        },
    };
    let mut replacement = String::new();
    push_char(&mut replacement, '(');
    push_str(&mut replacement, shorthand);
    push_char(&mut replacement, ')');
    assert(replacement@ =~= seq!['('] + shorthand@ + seq![')']);
    Some(replace_range(base, start, end + 1, replacement.as_str()))
}

/// `[var(value)]`.
pub open spec fn bracketed_var(value: Seq<char>) -> Seq<char> {
    seq!['['] + var_open() + value + seq![')', ']']
}

/// The explicit `[var(...)]` spelling of the first shorthand variable of `base`: first inside
/// square brackets, else inside parentheses.
pub open spec fn spec_to_variable(base: Seq<char>) -> Option<Seq<char>> {
    let square = match spec_balanced(base, '[', ']') {
        Some((start, end)) => {
            let inner = base.subrange(start + 1, end);
            if is_prefix(var_open(), inner) {
                Some(None)
            } else if spec_is_shorthand(inner) {
                Some(Some(spec_replace_range(base, start, end + 1, bracketed_var(inner))))
            } else {
                None
            }
        },
        None => None,
    };
    match square {
        Some(decided) => decided,
        None => match spec_balanced(base, '(', ')') {
            Some((start, end)) => {
                let inner = base.subrange(start + 1, end);
                if spec_is_shorthand(inner) {
                    Some(spec_replace_range(base, start, end + 1, bracketed_var(inner)))
                } else {
                    None
                }
            },
            None => None,
        },
    }
}

fn bracketed_var_string(inner: &str) -> (r: String)
    ensures
        r@ == bracketed_var(inner@),
{
    let mut replacement = String::new();
    push_char(&mut replacement, '[');
    push_char(&mut replacement, 'v');
    push_char(&mut replacement, 'a');
    push_char(&mut replacement, 'r');
    push_char(&mut replacement, '(');
    push_str(&mut replacement, inner);
    push_char(&mut replacement, ')');
    push_char(&mut replacement, ']');
    assert(replacement@ =~= bracketed_var(inner@));
    replacement
}

/// Rewrites `fill-(--brand)` as `fill-[var(--brand)]`.
pub fn to_variable(base: &str) -> (r: Option<String>)
    ensures
        match r {
            Some(t) => spec_to_variable(base@) == Some(t@),
            None => spec_to_variable(base@) is None,
        },
{
    proof {
        reveal_strlit("var(");
        assert("var("@ =~= var_open());
    }
    if let Some((start, end)) = balanced(base, '[', ']') {
        let inner = base.substring_char(start + 1, end);
        if crate::text::starts_with(inner, "var(") {
            return None;
        }
        if is_shorthand(inner) {
            let replacement = bracketed_var_string(inner);
            return Some(replace_range(base, start, end + 1, replacement.as_str()));
        }
    }
    let (start, end) = match balanced(base, '(', ')') {
        Some(found) => found,
        None => return None,
    };
    let inner = base.substring_char(start + 1, end);
    if is_shorthand(inner) {
        let replacement = bracketed_var_string(inner);
        Some(replace_range(base, start, end + 1, replacement.as_str()))
    } else {
        None
    }
}

} // verus!
