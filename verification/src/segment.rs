//! Splitting and checking the bracketed syntax of Tailwind candidates.
//!
//! All three scanners share one lexical model: a backslash escapes the character after it, a
//! quote opens a string that runs to the matching quote, and brackets nest.

use vstd::prelude::*;
use crate::text::{chars_of, join_with, push_char, views};
use vstd::string::{StringSliceAdditionalSpecFns, StrSliceExecFns};

verus! {

/// The index just after the string whose body starts at `i` and which `quote` closes. A
/// backslash inside the string escapes the next character. An unterminated string runs past
/// the end, so the result may exceed `s.len()`.
pub open spec fn skip_quoted(s: Seq<char>, i: int, quote: char) -> int
    decreases s.len() + 1 - i,
{
    if i >= s.len() {
        i
    } else if s[i] == '\\' {
        skip_quoted(s, i + 2, quote)
    } else if s[i] == quote {
        i + 1
    } else {
        skip_quoted(s, i + 1, quote)
    }
}

pub proof fn lemma_skip_quoted_advances(s: Seq<char>, i: int, quote: char)
    ensures
        skip_quoted(s, i, quote) >= i,
        i <= s.len() + 1 ==> skip_quoted(s, i, quote) <= s.len() + 1,
    decreases s.len() + 1 - i,
{
    if i < s.len() {
        if s[i] == '\\' {
            lemma_skip_quoted_advances(s, i + 2, quote);
        } else if s[i] != quote {
            lemma_skip_quoted_advances(s, i + 1, quote);
        }
    }
}

pub open spec fn is_quote(c: char) -> bool {
    c == '\'' || c == '"'
}

pub open spec fn is_closer(c: char) -> bool {
    c == ')' || c == ']' || c == '}'
}

/// The closing bracket that `c` opens, if `c` is one of `(`, `[`, `{`.
pub open spec fn closer_of(c: char) -> Option<char> {
    if c == '(' {
        Some(')')
    } else if c == '[' {
        Some(']')
    } else if c == '{' {
        Some('}')
    } else {
        None
    }
}

/// One token of the splitting scanner: where the next token starts, and the stack of expected
/// closing brackets after this one. A closer pops the stack only when it matches its top.
pub open spec fn segment_step(s: Seq<char>, i: int, stack: Seq<char>) -> (int, Seq<char>)
    recommends
        0 <= i < s.len(),
{
    let c = s[i];
    if c == '\\' {
        (i + 2, stack)
    } else if is_quote(c) {
        (skip_quoted(s, i + 1, c), stack)
    } else if closer_of(c) is Some {
        (i + 1, stack.push(closer_of(c)->0))
    } else if is_closer(c) {
        (i + 1, if stack.len() > 0 && stack.last() == c { stack.drop_last() } else { stack })
    } else {
        (i + 1, stack)
    }
}

pub proof fn lemma_segment_step_advances(s: Seq<char>, i: int, stack: Seq<char>)
    requires
        0 <= i < s.len(),
    ensures
        i < segment_step(s, i, stack).0 <= s.len() + 1,
{
    if is_quote(s[i]) {
        lemma_skip_quoted_advances(s, i + 1, s[i]);
    }
}

/// The positions, at or after `i`, of the separators that stand outside every bracket, string
/// and escape, when the scanner reaches `i` with `stack` open.
pub open spec fn split_points(s: Seq<char>, sep: char, i: int, stack: Seq<char>) -> Seq<int>
    decreases s.len() + 1 - i,
{
    if i < 0 || i >= s.len() {
        Seq::empty()
    } else if stack.len() == 0 && s[i] == sep {
        seq![i] + split_points(s, sep, i + 1, stack)
    } else {
        proof {
            lemma_segment_step_advances(s, i, stack);
        }
        split_points(s, sep, segment_step(s, i, stack).0, segment_step(s, i, stack).1)
    }
}

/// The pieces of `s` from `start` on, cut at each of `cuts` (each cut removes one character).
pub open spec fn pieces(s: Seq<char>, cuts: Seq<int>, start: int) -> Seq<Seq<char>>
    decreases cuts.len(),
{
    if cuts.len() == 0 {
        seq![s.subrange(start, s.len() as int)]
    } else {
        seq![s.subrange(start, cuts[0])] + pieces(s, cuts.drop_first(), cuts[0] + 1)
    }
}

/// `s` split at every top-level occurrence of `sep`.
pub open spec fn spec_segment(s: Seq<char>, sep: char) -> Seq<Seq<char>> {
    pieces(s, split_points(s, sep, 0, Seq::empty()), 0)
}

/// Where the string that opens at `i` ends: the exec form of `skip_quoted`, capped at the length.
pub fn skip_quoted_exec(chars: &Vec<char>, i: usize, quote: char) -> (r: usize)
    requires
        i <= chars.len(),
    ensures
        i <= r <= chars.len(),
        skip_quoted(chars@, i as int, quote) >= chars.len() ==> r == chars.len(),
        skip_quoted(chars@, i as int, quote) < chars.len() ==> r == skip_quoted(chars@, i as int, quote),
{
    let n = chars.len();
    proof {
        lemma_skip_quoted_advances(chars@, i as int, quote);
    }
    let mut index = i;
    while index < n
        invariant
            n == chars.len(),
            i <= index <= n,
            skip_quoted(chars@, index as int, quote) == skip_quoted(chars@, i as int, quote),
        decreases n - index,
    {
        let c = chars[index];
        if c == '\\' {
            if n - index <= 2 {
                proof {
                    lemma_skip_quoted_advances(chars@, index + 2, quote);
                }
                return n;
            }
            index = index + 2;
        } else if c == quote {
            return index + 1;
        } else {
            index = index + 1;
        }
    }
    index
}

proof fn lemma_split_points_past_end(s: Seq<char>, sep: char, i: int, stack: Seq<char>)
    requires
        i >= s.len(),
    ensures
        split_points(s, sep, i, stack) == Seq::<int>::empty(),
{
}

/// Split `input` on a separator that is not nested in parentheses, brackets, braces, or quotes.
pub fn segment(input: &str, separator: u8) -> (parts: Vec<&str>)
    requires
        separator < 128 || !input.spec_bytes().contains(separator),
    ensures
        separator < 128 ==> views(parts@) == spec_segment(input@, separator as char),
        separator >= 128 ==> views(parts@) == seq![input@],
{
    if separator >= 128 {
        let mut parts: Vec<&str> = Vec::new();
        parts.push(input);
        assert(views(parts@) =~= seq![input@]);
        return parts;
    }
    let chars = chars_of(input);
    let n = chars.len();
    let sep = separator as char;
    let ghost s = input@;
    let mut closing: Vec<char> = Vec::new();
    let mut parts: Vec<&str> = Vec::new();
    let mut start: usize = 0;
    let mut index: usize = 0;
    while index < n
        invariant
            n == chars@.len(),
            chars@ == s,
            s == input@,
            sep == separator as char,
            start <= index <= n,
            spec_segment(s, sep) == views(parts@) + pieces(s, split_points(s, sep, index as int, closing@), start as int),
        decreases n - index,
    {
        let c = chars[index];
        let ghost before = views(parts@);
        if closing.len() == 0 && c == sep {
            let part = input.substring_char(start, index);
            parts.push(part);
            assert(views(parts@) =~= before.push(part@));
            proof {
                let rest = split_points(s, sep, index + 1, closing@);
                assert(split_points(s, sep, index as int, closing@) == seq![index as int] + rest);
                assert((seq![index as int] + rest).drop_first() =~= rest);
                assert(pieces(s, seq![index as int] + rest, start as int) == seq![s.subrange(start as int, index as int)] + pieces(s, rest, index + 1));
                assert(views(parts@) + pieces(s, rest, index + 1) =~= before + pieces(s, split_points(s, sep, index as int, closing@), start as int));
            }
            start = index + 1;
            index = index + 1;
        } else if c == '\\' {
            if n - index <= 2 {
                proof {
                    lemma_split_points_past_end(s, sep, index + 2, closing@);
                }
                index = n;
            } else {
                index = index + 2;
            }
        } else if c == '\'' || c == '"' {
            let next = skip_quoted_exec(&chars, index + 1, c);
            proof {
                if skip_quoted(s, index + 1, c) >= n {
                    lemma_split_points_past_end(s, sep, skip_quoted(s, index + 1, c), closing@);
                }
            }
            index = next;
        } else if c == '(' {
            closing.push(')');
            index = index + 1;
        } else if c == '[' {
            closing.push(']');
            index = index + 1;
        } else if c == '{' {
            closing.push('}');
            index = index + 1;
        } else if c == ')' || c == ']' || c == '}' {
            if closing.len() > 0 && closing[closing.len() - 1] == c {
                closing.pop();
            }
            index = index + 1;
        } else {
            index = index + 1;
        }
    }
    let ghost before = views(parts@);
    let last = input.substring_char(start, n);
    parts.push(last);
    assert(views(parts@) =~= before.push(last@));
    parts
}

proof fn lemma_pieces_rejoin(s: Seq<char>, sep: char, i: int, stack: Seq<char>, start: int)
    requires
        0 <= start <= i,
        start <= s.len(),
    ensures
        pieces(s, split_points(s, sep, i, stack), start).len() >= 1,
        join_with(pieces(s, split_points(s, sep, i, stack), start), sep) == s.subrange(start, s.len() as int),
    decreases s.len() + 1 - i,
{
    if i >= s.len() {
        assert(pieces(s, Seq::<int>::empty(), start) == seq![s.subrange(start, s.len() as int)]);
    } else if stack.len() == 0 && s[i] == sep {
        let rest = split_points(s, sep, i + 1, stack);
        lemma_pieces_rejoin(s, sep, i + 1, stack, i + 1);
        assert((seq![i] + rest).drop_first() =~= rest);
        let ps = pieces(s, seq![i] + rest, start);
        assert(ps == seq![s.subrange(start, i)] + pieces(s, rest, i + 1));
        assert(ps.drop_first() =~= pieces(s, rest, i + 1));
        assert(s.subrange(start, i) + seq![sep] + s.subrange(i + 1, s.len() as int) =~= s.subrange(start, s.len() as int));
    } else {
        lemma_segment_step_advances(s, i, stack);
        lemma_pieces_rejoin(s, sep, segment_step(s, i, stack).0, segment_step(s, i, stack).1, start);
    }
}

/// Cutting `s` from `start` on at increasing positions that each hold `sep`, and joining the
/// pieces with `sep`, gives back `s` from `start` on.
pub proof fn lemma_pieces_join(s: Seq<char>, cuts: Seq<int>, start: int, sep: char)
    requires
        0 <= start <= s.len(),
        forall|k: int| 0 <= k < cuts.len() ==> start <= #[trigger] cuts[k] < s.len() && s[cuts[k]] == sep,
        forall|k: int, m: int| 0 <= k < m < cuts.len() ==> cuts[k] < cuts[m],
    ensures
        pieces(s, cuts, start).len() == cuts.len() + 1,
        join_with(pieces(s, cuts, start), sep) == s.subrange(start, s.len() as int),
    decreases cuts.len(),
{
    if cuts.len() > 0 {
        let rest = cuts.drop_first();
        assert forall|k: int| 0 <= k < rest.len() implies cuts[0] + 1 <= #[trigger] rest[k] < s.len() && s[rest[k]] == sep by {
            assert(rest[k] == cuts[k + 1]);
        }
        assert forall|k: int, m: int| 0 <= k < m < rest.len() implies rest[k] < rest[m] by {
            assert(rest[k] == cuts[k + 1]);
            assert(rest[m] == cuts[m + 1]);
        }
        lemma_pieces_join(s, rest, cuts[0] + 1, sep);
        let ps = pieces(s, cuts, start);
        assert(ps.drop_first() =~= pieces(s, rest, cuts[0] + 1));
        assert(s.subrange(start, cuts[0]) + seq![sep] + s.subrange(cuts[0] + 1, s.len() as int) =~= s.subrange(start, s.len() as int));
    }
}

/// Joining the parts that `segment` produces with the separator gives back the input, and there
/// is always at least one part.
pub proof fn segment_rejoins(s: Seq<char>, sep: char)
    ensures
        spec_segment(s, sep).len() >= 1,
        join_with(spec_segment(s, sep), sep) == s,
{
    lemma_pieces_rejoin(s, sep, 0, Seq::empty(), 0);
    assert(s.subrange(0, s.len() as int) =~= s);
}

proof fn lemma_split_points_at_separators(s: Seq<char>, sep: char, i: int, stack: Seq<char>)
    ensures
        forall|k: int| 0 <= k < split_points(s, sep, i, stack).len() ==> {
            let p = #[trigger] split_points(s, sep, i, stack)[k];
            0 <= p < s.len() && s[p] == sep
        },

    decreases s.len() + 1 - i,
{
    if 0 <= i < s.len() {
        if stack.len() == 0 && s[i] == sep {
            lemma_split_points_at_separators(s, sep, i + 1, stack);
            let rest = split_points(s, sep, i + 1, stack);
            assert(split_points(s, sep, i, stack) == seq![i] + rest);
            assert forall|k: int| 0 <= k < split_points(s, sep, i, stack).len() implies {
                let p = #[trigger] split_points(s, sep, i, stack)[k];
                0 <= p < s.len() && s[p] == sep
            } by {
                if k > 0 {
                    assert(split_points(s, sep, i, stack)[k] == rest[k - 1]);
                }
            }
        } else {
            lemma_segment_step_advances(s, i, stack);
            lemma_split_points_at_separators(s, sep, segment_step(s, i, stack).0, segment_step(s, i, stack).1);
            assert(split_points(s, sep, i, stack) == split_points(s, sep, segment_step(s, i, stack).0, segment_step(s, i, stack).1));
        }
    }
}

/// Splitting a string that holds no separator gives the whole string as the only part.
pub proof fn segment_without_separator(s: Seq<char>, sep: char)
    requires
        !s.contains(sep),
    ensures
        spec_segment(s, sep) == seq![s],
{
    lemma_split_points_at_separators(s, sep, 0, Seq::empty());
    let cuts = split_points(s, sep, 0, Seq::empty());
    if cuts.len() > 0 {
        assert(s[cuts[0]] == sep);
        assert(s.contains(sep));
    }
    assert(cuts =~= Seq::<int>::empty());
    assert(s.subrange(0, s.len() as int) =~= s);
}

/// Whether the scan of an arbitrary value from `i`, with `stack` of expected closers, ends with
/// every bracket closed by its own kind and no `;` outside brackets. Braces are not opened but
/// a stray `}` fails like any unmatched closer.
pub open spec fn valid_from(s: Seq<char>, i: int, stack: Seq<char>) -> bool
    decreases s.len() + 1 - i,
{
    if i < 0 || i >= s.len() {
        stack.len() == 0
    } else {
        let c = s[i];
        if c == '\\' {
            valid_from(s, i + 2, stack)
        } else if is_quote(c) {
            proof {
                lemma_skip_quoted_advances(s, i + 1, c);
            }
            valid_from(s, skip_quoted(s, i + 1, c), stack)
        } else if c == '(' {
            valid_from(s, i + 1, stack.push(')'))
        } else if c == '[' {
            valid_from(s, i + 1, stack.push(']'))
        } else if is_closer(c) {
            stack.len() > 0 && stack.last() == c && valid_from(s, i + 1, stack.drop_last())
        } else if c == ';' && stack.len() == 0 {
            false
        } else {
            valid_from(s, i + 1, stack)
        }
    }
}

/// An arbitrary value is valid when its brackets balance and it holds no top-level `;`.
pub open spec fn spec_is_valid_arbitrary(s: Seq<char>) -> bool {
    valid_from(s, 0, Seq::empty())
}

/// Whether `s` holds no backslash and no quote: a value whose brackets alone decide validity.
pub open spec fn unquoted(s: Seq<char>) -> bool {
    forall|k: int| 0 <= k < s.len() ==> #[trigger] s[k] != '\\' && !is_quote(s[k])
}

proof fn lemma_valid_shift(p: Seq<char>, b: Seq<char>, j: int, stack: Seq<char>)
    requires
        unquoted(b),
        0 <= j <= b.len(),
    ensures
        valid_from(p + b, p.len() + j, stack) == valid_from(b, j, stack),
    decreases b.len() - j,
{
    if j < b.len() {
        assert((p + b)[p.len() + j] == b[j]);
        let c = b[j];
        assert(c != '\\' && !is_quote(c));
        if c == '(' {
            lemma_valid_shift(p, b, j + 1, stack.push(')'));
        } else if c == '[' {
            lemma_valid_shift(p, b, j + 1, stack.push(']'));
        } else if is_closer(c) {
            lemma_valid_shift(p, b, j + 1, stack.drop_last());
        } else {
            lemma_valid_shift(p, b, j + 1, stack);
        }
    }
}

proof fn lemma_valid_concat(a: Seq<char>, b: Seq<char>, i: int, stack: Seq<char>, base: Seq<char>)
    requires
        unquoted(a),
        unquoted(b),
        0 <= i <= a.len(),
        valid_from(a, i, stack),
        valid_from(b, 0, base),
    ensures
        valid_from(a + b, i, base + stack),
    decreases a.len() - i,
{
    if i == a.len() {
        assert(base + stack =~= base);
        lemma_valid_shift(a, b, 0, base);
    } else {
        assert((a + b)[i] == a[i]);
        let c = a[i];
        assert(c != '\\' && !is_quote(c));
        if c == '(' {
            lemma_valid_concat(a, b, i + 1, stack.push(')'), base);
            assert(base + stack.push(')') =~= (base + stack).push(')'));
        } else if c == '[' {
            lemma_valid_concat(a, b, i + 1, stack.push(']'), base);
            assert(base + stack.push(']') =~= (base + stack).push(']'));
        } else if is_closer(c) {
            lemma_valid_concat(a, b, i + 1, stack.drop_last(), base);
            assert(base + stack.drop_last() =~= (base + stack).drop_last());
            assert((base + stack).last() == stack.last());
        } else {
            lemma_valid_concat(a, b, i + 1, stack, base);
        }
    }
}

/// Brackets decide the validity of an arbitrary value without quotes or escapes: two valid
/// values side by side are valid, and a valid value inside a matching pair of parentheses or
/// square brackets is valid.
pub proof fn valid_arbitrary_values_compose(a: Seq<char>, b: Seq<char>)
    requires
        unquoted(a),
        unquoted(b),
        spec_is_valid_arbitrary(a),
        spec_is_valid_arbitrary(b),
    ensures
        spec_is_valid_arbitrary(a + b),
        spec_is_valid_arbitrary(seq!['('] + a + seq![')']),
        spec_is_valid_arbitrary(seq!['['] + a + seq![']']),
{
    lemma_valid_concat(a, b, 0, Seq::empty(), Seq::empty());
    assert(Seq::<char>::empty() + Seq::<char>::empty() =~= Seq::<char>::empty());
    let close_paren = seq![')'];
    let close_bracket = seq![']'];
    assert(unquoted(close_paren));
    assert(unquoted(close_bracket));
    assert(valid_from(close_paren, 1, Seq::empty()));
    assert(close_paren[0] == ')' && seq![')'].drop_last() =~= Seq::<char>::empty());
    assert(valid_from(close_paren, 0, seq![')']));
    assert(valid_from(close_bracket, 1, Seq::empty()));
    assert(close_bracket[0] == ']' && seq![']'].drop_last() =~= Seq::<char>::empty());
    assert(valid_from(close_bracket, 0, seq![']']));
    lemma_valid_concat(a, close_paren, 0, Seq::empty(), seq![')']);
    lemma_valid_concat(a, close_bracket, 0, Seq::empty(), seq![']']);
    assert(seq![')'] + Seq::<char>::empty() =~= seq![')']);
    assert(seq![']'] + Seq::<char>::empty() =~= seq![']']);
    assert(unquoted(a + close_paren));
    assert(unquoted(a + close_bracket));
    lemma_valid_shift(seq!['('], a + close_paren, 0, seq![')']);
    lemma_valid_shift(seq!['['], a + close_bracket, 0, seq![']']);
    let wrapped = seq!['('] + a + close_paren;
    assert(wrapped =~= seq!['('] + (a + close_paren));
    assert(wrapped[0] == '(');
    assert(Seq::<char>::empty().push(')') =~= seq![')']);
    let boxed = seq!['['] + a + close_bracket;
    assert(boxed =~= seq!['['] + (a + close_bracket));
    assert(boxed[0] == '[');
    assert(Seq::<char>::empty().push(']') =~= seq![']']);
}

pub fn is_valid_arbitrary(input: &str) -> (valid: bool)
    ensures
        valid == spec_is_valid_arbitrary(input@),
{
    let chars = chars_of(input);
    let n = chars.len();
    let ghost s = input@;
    let mut closing: Vec<char> = Vec::new();
    let mut index: usize = 0;
    while index < n
        invariant
            n == chars@.len(),
            chars@ == s,
            s == input@,
            index <= n,
            spec_is_valid_arbitrary(s) == valid_from(s, index as int, closing@),
        decreases n - index,
    {
        let c = chars[index];
        if c == '\\' {
            if n - index <= 2 {
                assert(valid_from(s, index + 2, closing@) == (closing@.len() == 0));
                index = n;
            } else {
                index = index + 2;
            }
        } else if c == '\'' || c == '"' {
            let next = skip_quoted_exec(&chars, index + 1, c);
            proof {
                let k = skip_quoted(s, index + 1, c);
                if k >= n {
                    assert(valid_from(s, k, closing@) == (closing@.len() == 0));
                }
            }
            index = next;
        } else if c == '(' {
            closing.push(')');
            index = index + 1;
        } else if c == '[' {
            closing.push(']');
            index = index + 1;
        } else if c == ')' || c == ']' || c == '}' {
            if closing.len() == 0 || closing[closing.len() - 1] != c {
                return false;
            }
            closing.pop();
            index = index + 1;
        } else if c == ';' && closing.len() == 0 {
            return false;
        } else {
            index = index + 1;
        }
    }
    closing.len() == 0
}

/// Whether `var(` starts at position `i` of `s`.
pub open spec fn var_call_at(s: Seq<char>, i: int) -> bool {
    0 <= i && i + 4 <= s.len() && s[i] == 'v' && s[i + 1] == 'a' && s[i + 2] == 'r' && s[i + 3] == '('
}

/// Tailwind's underscore decoding of `s` from `i` on, inside `depth` open `var(` calls;
/// `first` tells whether the scan is in the first argument of the innermost one.
pub open spec fn decode_from(s: Seq<char>, i: int, depth: nat, first: bool) -> Seq<char>
    decreases s.len() - i,
{
    if i < 0 || i >= s.len() {
        Seq::empty()
    } else if s[i] == '\\' && i + 1 < s.len() && s[i + 1] == '_' {
        seq!['_'] + decode_from(s, i + 2, depth, first)
    } else if var_call_at(s, i) {
        seq!['v', 'a', 'r', '('] + decode_from(s, i + 4, depth + 1, true)
    } else if s[i] == '_' {
        seq![if first { '_' } else { ' ' }] + decode_from(s, i + 1, depth, first)
    } else if s[i] == ',' && depth > 0 {
        seq![','] + decode_from(s, i + 1, depth, false)
    } else if s[i] == ')' && depth > 0 {
        seq![')'] + decode_from(s, i + 1, (depth - 1) as nat, false)
    } else {
        seq![s[i]] + decode_from(s, i + 1, depth, first)
    }
}

/// The decoded form of an arbitrary value: `_` stands for a space except in the first argument
/// of `var()`, where it is part of the variable's name, and `\_` stands for `_`.
pub open spec fn spec_decode_arbitrary(s: Seq<char>) -> Seq<char> {
    decode_from(s, 0, 0, false)
}

/// Decode Tailwind's underscore spelling for arbitrary values. Underscores in the first argument
/// of `var()` are identifiers and therefore remain underscores.
pub fn decode_arbitrary(input: &str) -> (output: String)
    ensures
        output@ == spec_decode_arbitrary(input@),
{
    let chars = chars_of(input);
    let n = chars.len();
    let ghost s = input@;
    let mut output = String::new();
    let mut index: usize = 0;
    let mut var_depth: usize = 0;
    let mut var_first_argument = false;
    while index < n
        invariant
            n == chars@.len(),
            chars@ == s,
            index <= n,
            var_depth <= index,
            spec_decode_arbitrary(s) == output@ + decode_from(s, index as int, var_depth as nat, var_first_argument),
        decreases n - index,
    {
        let ghost before = output@;
        let c = chars[index];
        if c == '\\' && index + 1 < n && chars[index + 1] == '_' {
            push_char(&mut output, '_');
            index = index + 2;
        } else if n - index >= 4 && c == 'v' && chars[index + 1] == 'a' && chars[index + 2] == 'r' && chars[index + 3] == '(' {
            push_char(&mut output, 'v');
            push_char(&mut output, 'a');
            push_char(&mut output, 'r');
            push_char(&mut output, '(');
            assert(output@ =~= before + seq!['v', 'a', 'r', '(']);
            index = index + 4;
            var_depth = var_depth + 1;
            var_first_argument = true;
        } else if c == '_' {
            push_char(&mut output, if var_first_argument { '_' } else { ' ' });
            index = index + 1;
        } else if c == ',' && var_depth > 0 {
            push_char(&mut output, ',');
            var_first_argument = false;
            index = index + 1;
        } else if c == ')' && var_depth > 0 {
            push_char(&mut output, ')');
            var_depth = var_depth - 1;
            var_first_argument = false;
            index = index + 1;
        } else {
            push_char(&mut output, c);
            index = index + 1;
        }
    }
    output
}

} // verus!
