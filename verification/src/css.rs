//! The parts of CSS that a Tailwind stylesheet configures a design system with: at-rules and
//! their blocks, declarations, class selectors and `@import` requests. Comments and strings are
//! skipped wherever a directive is looked for. Positions are character positions.

use vstd::prelude::*;
use vstd::string::StrSliceExecFns;
use crate::segment::{segment, spec_segment, skip_quoted, lemma_skip_quoted_advances, is_quote};
use crate::variable_syntax::first_index_from;
use crate::text::{trim, trim_ws, trim_start, trim_start_ws, chars_of, is_ascii_whitespace, char_is_ascii_whitespace, is_ascii_lowercase, is_ascii_digit, is_ascii_uppercase, is_ascii_alphanumeric, char_is_ascii_alphanumeric, char_is_ascii_digit, char_is_ascii_lowercase, views};

verus! {

/// Whether `needle` occurs in `s` at position `i`.
pub open spec fn occurs_at(s: Seq<char>, needle: Seq<char>, i: int) -> bool {
    0 <= i && i + needle.len() <= s.len() && s.subrange(i, i + needle.len()) == needle
}

/// The first position at or after `i` where `*/` starts.
pub open spec fn comment_close_from(s: Seq<char>, i: int) -> Option<int>
    decreases s.len() - i,
{
    if i < 0 || i + 1 >= s.len() {
        None
    } else if s[i] == '*' && s[i + 1] == '/' {
        Some(i)
    } else {
        comment_close_from(s, i + 1)
    }
}

pub proof fn lemma_comment_close_bounds(s: Seq<char>, i: int)
    requires
        0 <= i,
    ensures
        comment_close_from(s, i) matches Some(k) ==> i <= k && k + 1 < s.len(),
    decreases s.len() - i,
{
    if i + 1 < s.len() && !(s[i] == '*' && s[i + 1] == '/') {
        lemma_comment_close_bounds(s, i + 1);
    }
}

/// Where the string that opens with the quote at `start` ends: after its closing quote, or at
/// the end of `s`.
pub open spec fn css_string_end(s: Seq<char>, start: int) -> int {
    let end = skip_quoted(s, start + 1, s[start]);
    if end < s.len() { end } else { s.len() as int }
}

/// Where the comment or string that starts at `i` ends, if one starts there. An unclosed
/// comment runs to the end.
pub open spec fn skipped_run_end(s: Seq<char>, i: int) -> Option<int> {
    if i + 1 < s.len() && s[i] == '/' && s[i + 1] == '*' {
        Some(match comment_close_from(s, i + 2) {
            Some(k) => k + 2,
            None => s.len() as int,
        })
    } else if 0 <= i < s.len() && is_quote(s[i]) {
        Some(css_string_end(s, i))
    } else {
        None
    }
}

pub proof fn lemma_skipped_run_advances(s: Seq<char>, i: int)
    requires
        0 <= i < s.len(),
    ensures
        skipped_run_end(s, i) matches Some(j) ==> i < j <= s.len(),
{
    lemma_comment_close_bounds(s, i + 2);
    if i < s.len() && is_quote(s[i]) {
        lemma_skip_quoted_advances(s, i + 1, s[i]);
    }
}

/// The exec form of `skipped_run_end`.
fn skip_run(chars: &Vec<char>, i: usize) -> (r: Option<usize>)
    requires
        i < chars@.len(),
    ensures
        match r {
            Some(j) => skipped_run_end(chars@, i as int) == Some(j as int),
            None => skipped_run_end(chars@, i as int) is None,
        },
{
    let n = chars.len();
    proof {
        lemma_skipped_run_advances(chars@, i as int);
    }
    if i + 1 < n && chars[i] == '/' && chars[i + 1] == '*' {
        let mut k = i + 2;
        while n > 0 && k < n - 1 && !(chars[k] == '*' && chars[k + 1] == '/')
            invariant
                n == chars@.len(),
                i + 2 <= k <= n,
                comment_close_from(chars@, (i + 2) as int) == comment_close_from(chars@, k as int),
            decreases n - k,
        {
            k = k + 1;
        }
        if n > 0 && k < n - 1 {
            Some(k + 2)
        } else {
            Some(n)
        }
    } else if chars[i] == '\'' || chars[i] == '"' {
        Some(skip_css_string(chars, i))
    } else {
        None
    }
}

/// Where the CSS string that opens at `start` ends: after its closing quote, or at the end.
pub fn skip_css_string(chars: &Vec<char>, start: usize) -> (r: usize)
    requires
        start < chars@.len(),
    ensures
        r == css_string_end(chars@, start as int),
{
    let n = chars.len();
    let quote = chars[start];
    let mut index = start + 1;
    while index < n
        invariant
            n == chars@.len(),
            start < index,
            quote == chars@[start as int],
            skip_quoted(chars@, index as int, quote) == skip_quoted(chars@, start + 1, quote),
        decreases n - index,
    {
        if chars[index] == '\\' {
            if n - index <= 2 {
                proof {
                    lemma_skip_quoted_advances(chars@, index + 2, quote);
                }
                return n;
            }
            index = index + 2;
        } else if chars[index] == quote {
            return index + 1;
        } else {
            index = index + 1;
        }
    }
    n
}

/// The position of the first character at or after `i` that is not ASCII whitespace.
pub open spec fn skip_whitespace_from(s: Seq<char>, i: int) -> int
    decreases s.len() - i,
{
    if i < 0 || i >= s.len() || !is_ascii_whitespace(s[i]) {
        i
    } else {
        skip_whitespace_from(s, i + 1)
    }
}

pub fn skip_whitespace(chars: &Vec<char>, index: usize) -> (r: usize)
    ensures
        r == skip_whitespace_from(chars@, index as int),
{
    let mut i = index;
    while i < chars.len() && char_is_ascii_whitespace(chars[i])
        invariant
            index <= i,
            skip_whitespace_from(chars@, index as int) == skip_whitespace_from(chars@, i as int),
        decreases chars.len() - i,
    {
        i = i + 1;
    }
    i
}

/// Whether the character after a directive ends it, for the given set of terminators.
pub open spec fn ends_directive(s: Seq<char>, i: int, quotes_end: bool) -> bool {
    i >= s.len() || is_ascii_whitespace(s[i]) || s[i] == ';' || s[i] == '{' || (quotes_end && is_quote(s[i]))
}

/// The first position at or after `i`, outside comments and strings, where `needle` stands
/// as a whole directive.
pub open spec fn directive_from(s: Seq<char>, needle: Seq<char>, i: int, quotes_end: bool) -> Option<int>
    decreases s.len() - i,
{
    if i < 0 || i >= s.len() {
        None
    } else {
        match skipped_run_end(s, i) {
            Some(j) => {
                proof {
                    lemma_skipped_run_advances(s, i);
                }
                directive_from(s, needle, j, quotes_end)
            },
            None => if occurs_at(s, needle, i) && ends_directive(s, i + needle.len(), quotes_end) {
                Some(i)
            } else {
                directive_from(s, needle, i + 1, quotes_end)
            },
        }
    }
}

pub fn occurs_at_exec(chars: &Vec<char>, needle: &Vec<char>, i: usize) -> (r: bool)
    ensures
        r == occurs_at(chars@, needle@, i as int),
{
    if i > chars.len() || needle.len() > chars.len() - i {
        return false;
    }
    let mut k: usize = 0;
    while k < needle.len()
        invariant
            i + needle@.len() <= chars@.len(),
            chars@.len() <= usize::MAX,
            k <= needle@.len(),
            forall|j: int| 0 <= j < k ==> chars@[i + j] == needle@[j],
        decreases needle.len() - k,
    {
        if chars[i + k] != needle[k] {
            assert(chars@.subrange(i as int, i + needle@.len())[k as int] != needle@[k as int]);
            return false;
        }
        k = k + 1;
    }
    assert(chars@.subrange(i as int, i + needle@.len()) =~= needle@);
    true
}

/// The exec form of `directive_from`.
fn find_directive(chars: &Vec<char>, needle: &Vec<char>, start: usize, quotes_end: bool) -> (r: Option<usize>)
    ensures
        match r {
            Some(p) => directive_from(chars@, needle@, start as int, quotes_end) == Some(p as int),
            None => directive_from(chars@, needle@, start as int, quotes_end) is None,
        },
{
    let n = chars.len();
    let mut index = start;
    while index < n
        invariant
            n == chars@.len(),
            start <= index,
            directive_from(chars@, needle@, start as int, quotes_end) == directive_from(chars@, needle@, index as int, quotes_end),
        decreases n - index,
    {
        proof {
            lemma_skipped_run_advances(chars@, index as int);
        }
        match skip_run(chars, index) {
            Some(j) => {
                index = j;
            },
            None => {
                if occurs_at_exec(chars, needle, index) {
                    let after = index + needle.len();
                    if after >= n || char_is_ascii_whitespace(chars[after]) || chars[after] == ';' || chars[after] == '{'
                        || (quotes_end && (chars[after] == '\'' || chars[after] == '"')) {
                        return Some(index);
                    }
                }
                index = index + 1;
            },
        }
    }
    None
}

/// Whether `content` uses the at-rule `directive` outside comments and strings.
pub fn contains_at_rule(content: &str, directive: &str) -> (r: bool)
    ensures
        r == (directive_from(content@, directive@, 0, true) is Some),
{
    let chars = chars_of(content);
    let needle = chars_of(directive);
    find_directive(&chars, &needle, 0, true).is_some()
}

/// The position, at or after `index`, of the next `needle` at-rule outside comments and strings.
pub fn next_at_rule(content: &str, needle: &str, index: usize) -> (r: Option<usize>)
    ensures
        match r {
            Some(p) => directive_from(content@, needle@, index as int, false) == Some(p as int),
            None => directive_from(content@, needle@, index as int, false) is None,
        },
{
    let chars = chars_of(content);
    let needle_chars = chars_of(needle);
    find_directive(&chars, &needle_chars, index, false)
}

/// The position of the brace that closes the one counted from `i` at `depth`, skipping escapes
/// and strings. A stray closer never takes the depth below zero.
pub open spec fn closing_brace_from(s: Seq<char>, i: int, depth: nat) -> Option<int>
    decreases s.len() + 1 - i,
{
    if i < 0 || i >= s.len() {
        None
    } else {
        let c = s[i];
        if c == '\\' {
            closing_brace_from(s, i + 2, depth)
        } else if is_quote(c) {
            proof {
                lemma_skip_quoted_advances(s, i + 1, c);
            }
            closing_brace_from(s, skip_quoted(s, i + 1, c), depth)
        } else if c == '{' {
            closing_brace_from(s, i + 1, depth + 1)
        } else if c == '}' {
            if depth <= 1 {
                Some(i)
            } else {
                closing_brace_from(s, i + 1, (depth - 1) as nat)
            }
        } else {
            closing_brace_from(s, i + 1, depth)
        }
    }
}

pub proof fn lemma_closing_brace_bounds(s: Seq<char>, i: int, depth: nat)
    requires
        0 <= i,
    ensures
        closing_brace_from(s, i, depth) matches Some(k) ==> i <= k < s.len(),
    decreases s.len() + 1 - i,
{
    if i < s.len() {
        let c = s[i];
        if c == '\\' {
            lemma_closing_brace_bounds(s, i + 2, depth);
        } else if is_quote(c) {
            lemma_skip_quoted_advances(s, i + 1, c);
            lemma_closing_brace_bounds(s, skip_quoted(s, i + 1, c), depth);
        } else if c == '{' {
            lemma_closing_brace_bounds(s, i + 1, depth + 1);
        } else if c == '}' {
            if depth > 1 {
                lemma_closing_brace_bounds(s, i + 1, (depth - 1) as nat);
            }
        } else {
            lemma_closing_brace_bounds(s, i + 1, depth);
        }
    }
}

/// The brace that closes the block opening at `open`.
pub fn matching_brace(chars: &Vec<char>, open: usize) -> (r: Option<usize>)
    ensures
        match r {
            Some(k) => closing_brace_from(chars@, open as int, 0) == Some(k as int) && open <= k < chars@.len(),
            None => closing_brace_from(chars@, open as int, 0) is None,
        },
{
    proof {
        lemma_closing_brace_bounds(chars@, open as int, 0);
    }
    let n = chars.len();
    let mut depth: usize = 0;
    let mut index = open;
    while index < n
        invariant
            n == chars@.len(),
            open <= index,
            depth <= index,
            closing_brace_from(chars@, open as int, 0) == closing_brace_from(chars@, index as int, depth as nat),
            closing_brace_from(chars@, open as int, 0) matches Some(k) ==> open <= k < chars@.len(),
        decreases n - index,
    {
        let c = chars[index];
        if c == '\\' {
            if n - index <= 2 {
                assert(closing_brace_from(chars@, index + 2, depth as nat) is None);
                return None;
            }
            index = index + 2;
        } else if c == '\'' || c == '"' {
            let j = crate::segment::skip_quoted_exec(chars, index + 1, c);
            proof {
                lemma_skip_quoted_advances(chars@, index + 1, c);
                let k = skip_quoted(chars@, index + 1, c);
                if k >= n {
                    assert(closing_brace_from(chars@, k, depth as nat) is None);
                }
            }
            if j >= n {
                return None;
            }
            index = j;
        } else if c == '{' {
            depth = depth + 1;
            index = index + 1;
        } else if c == '}' {
            if depth <= 1 {
                return Some(index);
            }
            depth = depth - 1;
            index = index + 1;
        } else {
            index = index + 1;
        }
    }
    None
}

pub proof fn lemma_directive_from_bounds(s: Seq<char>, needle: Seq<char>, i: int, quotes_end: bool)
    requires
        0 <= i,
    ensures
        directive_from(s, needle, i, quotes_end) matches Some(r) ==> i <= r && occurs_at(s, needle, r),
    decreases s.len() - i,
{
    if i < s.len() {
        lemma_skipped_run_advances(s, i);
        match skipped_run_end(s, i) {
            Some(j) => lemma_directive_from_bounds(s, needle, j, quotes_end),
            None => if !(occurs_at(s, needle, i) && ends_directive(s, i + needle.len(), quotes_end)) {
                lemma_directive_from_bounds(s, needle, i + 1, quotes_end);
            },
        }
    }
}

/// The first position at or after `i` of a `;` or a `{`.
pub open spec fn delimiter_from(s: Seq<char>, i: int) -> Option<int>
    decreases s.len() - i,
{
    if i < 0 || i >= s.len() {
        None
    } else if s[i] == ';' || s[i] == '{' {
        Some(i)
    } else {
        delimiter_from(s, i + 1)
    }
}

pub proof fn lemma_delimiter_bounds(s: Seq<char>, i: int)
    requires
        0 <= i,
    ensures
        delimiter_from(s, i) matches Some(d) ==> i <= d < s.len() && (s[d] == ';' || s[d] == '{'),
    decreases s.len() - i,
{
    if i < s.len() && !(s[i] == ';' || s[i] == '{') {
        lemma_delimiter_bounds(s, i + 1);
    }
}

fn find_delimiter(chars: &Vec<char>, start: usize) -> (r: Option<usize>)
    ensures
        match r {
            Some(d) => delimiter_from(chars@, start as int) == Some(d as int) && start <= d < chars@.len()
                && (chars@[d as int] == ';' || chars@[d as int] == '{'),
            None => delimiter_from(chars@, start as int) is None,
        },
{
    let mut i = start;
    while i < chars.len()
        invariant
            start <= i,
            delimiter_from(chars@, start as int) == delimiter_from(chars@, i as int),
        decreases chars.len() - i,
    {
        if chars[i] == ';' || chars[i] == '{' {
            return Some(i);
        }
        i = i + 1;
    }
    None
}

/// The `prelude { body }` blocks of the at-rule `needle` from `i` on: each prelude trimmed, each
/// body between the braces. A statement form (`needle prelude;`) is passed over, and the scan
/// stops at a block that never closes.
pub open spec fn blocks_from(s: Seq<char>, needle: Seq<char>, i: int) -> Seq<(Seq<char>, Seq<char>)>
    decreases s.len() + 1 - i,
{
    if i < 0 || i > s.len() {
        Seq::empty()
    } else {
        match directive_from(s, needle, i, false) {
            None => Seq::empty(),
            Some(r) => {
                let start = r + needle.len();
                proof {
                    lemma_directive_from_bounds(s, needle, i, false);
                    lemma_delimiter_bounds(s, start);
                }
                match delimiter_from(s, start) {
                    None => Seq::empty(),
                    Some(d) => if s[d] == ';' {
                        blocks_from(s, needle, d + 1)
                    } else {
                        proof {
                            lemma_closing_brace_bounds(s, d, 0);
                        }
                        match closing_brace_from(s, d, 0) {
                            None => Seq::empty(),
                            Some(c) => seq![(trim_ws(s.subrange(start, d)), s.subrange(d + 1, c))] + blocks_from(s, needle, c + 1),
                        }
                    },
                }
            },
        }
    }
}

/// The statements `needle prelude;` of the at-rule `needle` from `i` on, each prelude trimmed.
pub open spec fn statements_from(s: Seq<char>, needle: Seq<char>, i: int) -> Seq<Seq<char>>
    decreases s.len() + 1 - i,
{
    if i < 0 || i > s.len() {
        Seq::empty()
    } else {
        match directive_from(s, needle, i, false) {
            None => Seq::empty(),
            Some(r) => {
                let start = r + needle.len();
                proof {
                    lemma_directive_from_bounds(s, needle, i, false);
                    lemma_delimiter_bounds(s, start);
                }
                match delimiter_from(s, start) {
                    None => Seq::empty(),
                    Some(e) => (if s[e] == ';' { seq![trim_ws(s.subrange(start, e))] } else { Seq::empty() })
                        + statements_from(s, needle, e + 1),
                }
            },
        }
    }
}

/// An at-rule with a block: its prelude and the text between its braces.
pub struct AtRuleBlock<'a> {
    pub prelude: &'a str,
    pub body: &'a str,
}

pub open spec fn block_views(blocks: Seq<AtRuleBlock>) -> Seq<(Seq<char>, Seq<char>)> {
    blocks.map_values(|b: AtRuleBlock| (b.prelude@, b.body@))
}

fn at_needle(name: &str) -> (r: Vec<char>)
    ensures
        r@ == seq!['@'] + name@,
{
    let mut needle: Vec<char> = Vec::new();
    needle.push('@');
    let rest = chars_of(name);
    let mut i: usize = 0;
    while i < rest.len()
        invariant
            i <= rest@.len(),
            needle@ == seq!['@'] + rest@.take(i as int),
        decreases rest.len() - i,
    {
        needle.push(rest[i]);
        assert(rest@.take(i + 1) =~= rest@.take(i as int).push(rest@[i as int]));
        i = i + 1;
    }
    assert(rest@.take(rest@.len() as int) =~= rest@);
    needle
}

/// The blocks of the at-rule `@name` in `content`.
pub fn at_rule_blocks<'a>(content: &'a str, name: &str) -> (r: Vec<AtRuleBlock<'a>>)
    ensures
        block_views(r@) == blocks_from(content@, seq!['@'] + name@, 0),
{
    let chars = chars_of(content);
    let n = chars.len();
    let needle = at_needle(name);
    let ghost s = content@;
    let mut blocks: Vec<AtRuleBlock<'a>> = Vec::new();
    let mut index: usize = 0;
    while index <= n
        invariant
            n == s.len(),
            chars@ == s,
            s == content@,
            blocks_from(s, needle@, 0) == block_views(blocks@) + blocks_from(s, needle@, index as int),
        ensures
            blocks_from(s, needle@, 0) == block_views(blocks@) + blocks_from(s, needle@, index as int),
            blocks_from(s, needle@, index as int) == Seq::<(Seq<char>, Seq<char>)>::empty(),
        decreases n + 1 - index,
    {
        proof {
            lemma_directive_from_bounds(s, needle@, index as int, false);
        }
        let rule_start = match find_directive(&chars, &needle, index, false) {
            Some(r) => r,
            None => {
                assert(blocks_from(s, needle@, index as int) =~= Seq::<(Seq<char>, Seq<char>)>::empty());
                break;
            },
        };
        let start = rule_start + needle.len();
        let delimiter = match find_delimiter(&chars, start) {
            Some(d) => d,
            None => {
                assert(blocks_from(s, needle@, index as int) =~= Seq::<(Seq<char>, Seq<char>)>::empty());
                break;
            },
        };
        if chars[delimiter] == ';' {
            index = delimiter + 1;
            continue;
        }
        proof {
            assert(closing_brace_from(s, delimiter as int, 0) == closing_brace_from(s, delimiter + 1, 1));
            lemma_closing_brace_bounds(s, delimiter + 1, 1);
        }
        let close = match matching_brace(&chars, delimiter) {
            Some(c) => c,
            None => {
                assert(blocks_from(s, needle@, index as int) =~= Seq::<(Seq<char>, Seq<char>)>::empty());
                break;
            },
        };
        let block = AtRuleBlock {
            prelude: trim(content.substring_char(start, delimiter)),
            body: content.substring_char(delimiter + 1, close),
        };
        let ghost before = block_views(blocks@);
        blocks.push(block);
        assert(block_views(blocks@) =~= before.push((block.prelude@, block.body@)));
        assert(before.push((block.prelude@, block.body@)) + blocks_from(s, needle@, close + 1)
            =~= before + (seq![(block.prelude@, block.body@)] + blocks_from(s, needle@, close + 1)));
        index = close + 1;
    }
    assert(block_views(blocks@) + Seq::<(Seq<char>, Seq<char>)>::empty() =~= block_views(blocks@));
    blocks
}

/// The statements of the at-rule `@name` in `content`, each prelude trimmed.
pub fn at_rule_statements<'a>(content: &'a str, name: &str) -> (r: Vec<&'a str>)
    ensures
        views(r@) == statements_from(content@, seq!['@'] + name@, 0),
{
    let chars = chars_of(content);
    let n = chars.len();
    let needle = at_needle(name);
    let ghost s = content@;
    let mut statements: Vec<&'a str> = Vec::new();
    let mut index: usize = 0;
    while index <= n
        invariant
            n == s.len(),
            chars@ == s,
            s == content@,
            statements_from(s, needle@, 0) == views(statements@) + statements_from(s, needle@, index as int),
        ensures
            statements_from(s, needle@, 0) == views(statements@) + statements_from(s, needle@, index as int),
            statements_from(s, needle@, index as int) == Seq::<Seq<char>>::empty(),
        decreases n + 1 - index,
    {
        proof {
            lemma_directive_from_bounds(s, needle@, index as int, false);
        }
        let rule_start = match find_directive(&chars, &needle, index, false) {
            Some(r) => r,
            None => {
                assert(statements_from(s, needle@, index as int) =~= Seq::<Seq<char>>::empty());
                break;
            },
        };
        let start = rule_start + needle.len();
        let end = match find_delimiter(&chars, start) {
            Some(e) => e,
            None => {
                assert(statements_from(s, needle@, index as int) =~= Seq::<Seq<char>>::empty());
                break;
            },
        };
        let ghost before = views(statements@);
        if chars[end] == ';' {
            let statement = trim(content.substring_char(start, end));
            statements.push(statement);
            assert(views(statements@) =~= before.push(statement@));
            assert(before.push(statement@) + statements_from(s, needle@, end + 1)
                =~= before + (seq![statement@] + statements_from(s, needle@, end + 1)));
        } else {
            assert(before + (Seq::<Seq<char>>::empty() + statements_from(s, needle@, end + 1))
                =~= before + statements_from(s, needle@, end + 1));
        }
        index = end + 1;
    }
    assert(views(statements@) + Seq::<Seq<char>>::empty() =~= views(statements@));
    statements
}

/// The trimmed argument of the first `function(...)` call outside comments and strings, from
/// `i` on: the text up to the first `)` after the opening parenthesis.
pub open spec fn function_argument_from(s: Seq<char>, needle: Seq<char>, i: int) -> Option<Seq<char>>
    decreases s.len() - i,
{
    if i < 0 || i >= s.len() {
        None
    } else {
        match skipped_run_end(s, i) {
            Some(j) => {
                proof {
                    lemma_skipped_run_advances(s, i);
                }
                function_argument_from(s, needle, j)
            },
            None => if occurs_at(s, needle, i) {
                let start = i + needle.len();
                match first_index_from(s, start, ')') {
                    Some(end) => Some(trim_ws(s.subrange(start, end))),
                    None => None,
                }
            } else {
                function_argument_from(s, needle, i + 1)
            },
        }
    }
}

/// The argument of the first `function(...)` call in `content`, such as the prefix of
/// `prefix(tw)`.
pub fn find_function_argument<'a>(content: &'a str, function: &str) -> (r: Option<&'a str>)
    ensures
        match r {
            Some(a) => function_argument_from(content@, function@ + seq!['('], 0) == Some(a@),
            None => function_argument_from(content@, function@ + seq!['('], 0) is None,
        },
{
    let chars = chars_of(content);
    let n = chars.len();
    let mut needle = chars_of(function);
    needle.push('(');
    let ghost s = content@;
    let mut index: usize = 0;
    while index < n
        invariant
            n == s.len(),
            chars@ == s,
            s == content@,
            needle@ == function@ + seq!['('],
            function_argument_from(s, needle@, 0) == function_argument_from(s, needle@, index as int),
        decreases n - index,
    {
        proof {
            lemma_skipped_run_advances(s, index as int);
        }
        match skip_run(&chars, index) {
            Some(j) => {
                index = j;
            },
            None => {
                if occurs_at_exec(&chars, &needle, index) {
                    let start = index + needle.len();
                    let mut end = start;
                    while end < n && chars[end] != ')'
                        invariant
                            n == s.len(),
                            chars@ == s,
                            start <= end,
                            first_index_from(s, start as int, ')') == first_index_from(s, end as int, ')'),
                        decreases n - end,
                    {
                        end = end + 1;
                    }
                    if end >= n {
                        return None;
                    }
                    return Some(trim(content.substring_char(start, end)));
                }
                index = index + 1;
            },
        }
    }
    None
}

/// The position of the quote that closes a CSS string whose body starts at `i`.
pub open spec fn closing_quote_from(s: Seq<char>, i: int, quote: char) -> Option<int>
    decreases s.len() + 1 - i,
{
    if i < 0 || i >= s.len() {
        None
    } else if s[i] == '\\' {
        closing_quote_from(s, i + 2, quote)
    } else if s[i] == quote {
        Some(i)
    } else {
        closing_quote_from(s, i + 1, quote)
    }
}

pub proof fn lemma_closing_quote_bounds(s: Seq<char>, i: int, quote: char)
    requires
        0 <= i,
    ensures
        closing_quote_from(s, i, quote) matches Some(k) ==> i <= k < s.len(),
    decreases s.len() + 1 - i,
{
    if i < s.len() {
        if s[i] == '\\' {
            lemma_closing_quote_bounds(s, i + 2, quote);
        } else if s[i] != quote {
            lemma_closing_quote_bounds(s, i + 1, quote);
        }
    }
}

/// The body of the closed CSS string that starts at `start`, and where the string ends.
pub open spec fn spec_parse_css_string(s: Seq<char>, start: int) -> Option<(Seq<char>, int)> {
    if 0 <= start < s.len() && is_quote(s[start]) {
        match closing_quote_from(s, start + 1, s[start]) {
            Some(k) => Some((s.subrange(start + 1, k), k + 1)),
            None => None,
        }
    } else {
        None
    }
}

pub fn parse_css_string<'a>(content: &'a str, chars: &Vec<char>, start: usize) -> (r: Option<(&'a str, usize)>)
    requires
        chars@ == content@,
    ensures
        match r {
            Some((body, end)) => spec_parse_css_string(content@, start as int) == Some((body@, end as int))
                && start < end <= content@.len(),
            None => spec_parse_css_string(content@, start as int) is None,
        },
{
    let n = chars.len();
    if start >= n {
        return None;
    }
    let quote = chars[start];
    if quote != '\'' && quote != '"' {
        return None;
    }
    let mut index = start + 1;
    while index < n
        invariant
            n == chars@.len(),
            chars@ == content@,
            start < index,
            quote == chars@[start as int],
            quote == '\'' || quote == '"',
            closing_quote_from(chars@, start + 1, quote) == closing_quote_from(chars@, index as int, quote),
        decreases n - index,
    {
        if chars[index] == '\\' {
            if n - index <= 2 {
                assert(closing_quote_from(chars@, index + 2, quote) is None);
                return None;
            }
            index = index + 2;
        } else if chars[index] == quote {
            let body = content.substring_char(start + 1, index);
            assert(closing_quote_from(chars@, index as int, quote) == Some(index as int));
            assert(is_quote(content@[start as int]));
            assert(content@[start as int] == quote);
            assert(closing_quote_from(content@, start + 1, content@[start as int]) == Some(index as int));
            assert(spec_parse_css_string(content@, start as int) == Some((body@, index + 1)));
            return Some((body, index + 1));
        } else {
            index = index + 1;
        }
    }
    None
}

pub open spec fn import_keyword() -> Seq<char> {
    seq!['@', 'i', 'm', 'p', 'o', 'r', 't']
}

pub open spec fn reference_keyword() -> Seq<char> {
    seq!['@', 'r', 'e', 'f', 'e', 'r', 'e', 'n', 'c', 'e']
}

/// The length of the import keyword (`@import`, `@reference`) standing at `i`, if one does.
pub open spec fn import_keyword_at(s: Seq<char>, i: int) -> Option<int> {
    if occurs_at(s, import_keyword(), i) && (i + 7 >= s.len() || is_ascii_whitespace(s[i + 7])) {
        Some(7)
    } else if occurs_at(s, reference_keyword(), i) && (i + 10 >= s.len() || is_ascii_whitespace(s[i + 10])) {
        Some(10)
    } else {
        None
    }
}

/// The requests of the `@import` and `@reference` rules from `i` on, outside comments and
/// strings; a keyword not followed by a quoted request is passed over.
pub open spec fn references_from(s: Seq<char>, i: int) -> Seq<Seq<char>>
    decreases s.len() + 1 - i,
{
    if i < 0 || i >= s.len() {
        Seq::empty()
    } else {
        match skipped_run_end(s, i) {
            Some(j) => {
                proof {
                    lemma_skipped_run_advances(s, i);
                }
                references_from(s, j)
            },
            None => match import_keyword_at(s, i) {
                None => references_from(s, i + 1),
                Some(len) => {
                    let p = skip_whitespace_from(s, i + len);
                    proof {
                        lemma_skip_whitespace_bounds(s, i + len);
                        if 0 <= p < s.len() {
                            lemma_closing_quote_bounds(s, p + 1, s[p]);
                        }
                    }
                    match spec_parse_css_string(s, p) {
                        Some((request, end)) => seq![request] + references_from(s, end),
                        None => references_from(s, p + 1),
                    }
                },
            },
        }
    }
}

pub proof fn lemma_skip_whitespace_bounds(s: Seq<char>, i: int)
    requires
        0 <= i,
    ensures
        i <= skip_whitespace_from(s, i),
        i <= s.len() ==> skip_whitespace_from(s, i) <= s.len(),
    decreases s.len() - i,
{
    if i < s.len() && is_ascii_whitespace(s[i]) {
        lemma_skip_whitespace_bounds(s, i + 1);
    }
}

/// A stylesheet request of an `@import` or `@reference` rule.
pub struct Import {
    pub request: String,
}

fn literal_chars(text: &str) -> (r: Vec<char>)
    ensures
        r@ == text@,
{
    chars_of(text)
}

/// The stylesheets that `content` imports or references.
pub fn stylesheet_references(content: &str) -> (r: Vec<Import>)
    ensures
        r@.map_values(|i: Import| i.request@) == references_from(content@, 0),
{
    let chars = chars_of(content);
    let n = chars.len();
    let import_kw = literal_chars("@import");
    let reference_kw = literal_chars("@reference");
    proof {
        reveal_strlit("@import");
        reveal_strlit("@reference");
        assert(import_kw@ =~= import_keyword());
        assert(reference_kw@ =~= reference_keyword());
    }
    let ghost s = content@;
    let mut imports: Vec<Import> = Vec::new();
    let mut index: usize = 0;
    while index < n
        invariant
            n == s.len(),
            chars@ == s,
            s == content@,
            import_kw@ == import_keyword(),
            reference_kw@ == reference_keyword(),
            import_kw@.len() == 7,
            reference_kw@.len() == 10,
            references_from(s, 0) == imports@.map_values(|i: Import| i.request@) + references_from(s, index as int),
        decreases n - index,
    {
        proof {
            lemma_skipped_run_advances(s, index as int);
        }
        match skip_run(&chars, index) {
            Some(j) => {
                index = j;
            },
            None => {
                let keyword_len: usize = if occurs_at_exec(&chars, &import_kw, index)
                    && (n - index <= 7 || char_is_ascii_whitespace(chars[index + 7])) {
                    7
                } else if occurs_at_exec(&chars, &reference_kw, index)
                    && (n - index <= 10 || char_is_ascii_whitespace(chars[index + 10])) {
                    10
                } else {
                    0
                };
                if keyword_len == 0 {
                    index = index + 1;
                } else {
                    let p = skip_whitespace(&chars, index + keyword_len);
                    proof {
                        lemma_skip_whitespace_bounds(s, index + keyword_len);
                    }
                    let ghost before = imports@.map_values(|i: Import| i.request@);
                    match parse_css_string(content, &chars, p) {
                        Some((request, end)) => {
                            imports.push(Import { request: request.to_owned() });
                            assert(imports@.map_values(|i: Import| i.request@) =~= before.push(request@));
                            assert(before.push(request@) + references_from(s, end as int)
                                =~= before + (seq![request@] + references_from(s, end as int)));
                            index = end;
                        },
                        None => {
                            if p < n {
                                index = p + 1;
                            } else {
                                assert(references_from(s, p + 1) =~= Seq::<Seq<char>>::empty());
                                index = n;
                            }
                        },
                    }
                }
            },
        }
    }
    assert(imports@.map_values(|i: Import| i.request@) + Seq::<Seq<char>>::empty() =~= imports@.map_values(|i: Import| i.request@));
    imports
}

pub open spec fn is_class_name_char(c: char) -> bool {
    is_ascii_alphanumeric(c) || c == '-' || c == '_'
}

/// The end of the run of class-name characters from `i` on.
pub open spec fn class_name_end(s: Seq<char>, i: int) -> int
    decreases s.len() - i,
{
    if i < 0 || i >= s.len() || !is_class_name_char(s[i]) {
        i
    } else {
        class_name_end(s, i + 1)
    }
}

pub proof fn lemma_class_name_end_bounds(s: Seq<char>, i: int)
    requires
        0 <= i <= s.len(),
    ensures
        i <= class_name_end(s, i) <= s.len(),
    decreases s.len() - i,
{
    if i < s.len() && is_class_name_char(s[i]) {
        lemma_class_name_end_bounds(s, i + 1);
    }
}

/// The class names that selectors declare from `i` on: a `.` not right after a digit, then a
/// name that does not start with a digit, in a selector that a `{` (not a `;`) ends.
pub open spec fn class_selectors_from(s: Seq<char>, i: int) -> Seq<Seq<char>>
    decreases s.len() - i,
{
    if i < 0 || i >= s.len() {
        Seq::empty()
    } else {
        match skipped_run_end(s, i) {
            Some(j) => {
                proof {
                    lemma_skipped_run_advances(s, i);
                }
                class_selectors_from(s, j)
            },
            None => if s[i] != '.' || (i > 0 && is_ascii_digit(s[i - 1])) {
                class_selectors_from(s, i + 1)
            } else {
                let start = i + 1;
                let end = class_name_end(s, start);
                proof {
                    lemma_class_name_end_bounds(s, start);
                }
                let belongs = match delimiter_from(s, end) {
                    Some(d) => s[d] == '{',
                    None => false,
                };
                let next = if end > i + 1 { end } else { i + 1 };
                if end > start && !is_ascii_digit(s[start]) && belongs {
                    seq![s.subrange(start, end)] + class_selectors_from(s, next)
                } else {
                    class_selectors_from(s, next)
                }
            },
        }
    }
}

/// The class names that the selectors in `content` declare.
pub fn css_class_selectors(content: &str) -> (r: Vec<&str>)
    ensures
        views(r@) == class_selectors_from(content@, 0),
{
    let chars = chars_of(content);
    let n = chars.len();
    let ghost s = content@;
    let mut classes: Vec<&str> = Vec::new();
    let mut index: usize = 0;
    while index < n
        invariant
            n == s.len(),
            chars@ == s,
            s == content@,
            class_selectors_from(s, 0) == views(classes@) + class_selectors_from(s, index as int),
        decreases n - index,
    {
        proof {
            lemma_skipped_run_advances(s, index as int);
        }
        match skip_run(&chars, index) {
            Some(j) => {
                index = j;
            },
            None => {
                if chars[index] != '.' || (index > 0 && char_is_ascii_digit(chars[index - 1])) {
                    index = index + 1;
                } else {
                    let start = index + 1;
                    let mut end = start;
                    while end < n && (char_is_ascii_alphanumeric(chars[end]) || chars[end] == '-' || chars[end] == '_')
                        invariant
                            n == s.len(),
                            chars@ == s,
                            start <= end <= n,
                            class_name_end(s, start as int) == class_name_end(s, end as int),
                        decreases n - end,
                    {
                        end = end + 1;
                    }
                    let belongs = match find_delimiter(&chars, end) {
                        Some(d) => chars[d] == '{',
                        None => false,
                    };
                    let next = if end > index + 1 { end } else { index + 1 };
                    let ghost before = views(classes@);
                    if end > start && !char_is_ascii_digit(chars[start]) && belongs {
                        let name = content.substring_char(start, end);
                        classes.push(name);
                        assert(views(classes@) =~= before.push(name@));
                        assert(before.push(name@) + class_selectors_from(s, next as int)
                            =~= before + (seq![name@] + class_selectors_from(s, next as int)));
                    }
                    index = next;
                }
            },
        }
    }
    assert(views(classes@) + Seq::<Seq<char>>::empty() =~= views(classes@));
    classes
}

/// Whether `name` is a CSS property name: lowercase letters, digits and `-`; a custom property
/// (`--*`) may also use uppercase letters and `_`.
pub open spec fn spec_is_css_property_name(name: Seq<char>) -> bool {
    name.len() > 0 && forall|k: int| 0 <= k < name.len() ==> {
        let c = #[trigger] name[k];
        is_ascii_lowercase(c) || is_ascii_digit(c) || c == '-'
            || (name.len() >= 2 && name[0] == '-' && name[1] == '-' && (is_ascii_uppercase(c) || c == '_'))
    }
}

pub fn is_css_property_name(name: &str) -> (r: bool)
    ensures
        r == spec_is_css_property_name(name@),
{
    let chars = chars_of(name);
    let n = chars.len();
    if n == 0 {
        return false;
    }
    let custom = n >= 2 && chars[0] == '-' && chars[1] == '-';
    let mut k: usize = 0;
    while k < n
        invariant
            n == chars@.len(),
            chars@ == name@,
            n > 0,
            custom == (n >= 2 && chars@[0] == '-' && chars@[1] == '-'),
            k <= n,
            forall|j: int| 0 <= j < k ==> {
                let c = #[trigger] chars@[j];
                is_ascii_lowercase(c) || is_ascii_digit(c) || c == '-' || (custom && (is_ascii_uppercase(c) || c == '_'))
            },
        decreases n - k,
    {
        let c = chars[k];
        if !(char_is_ascii_lowercase(c) || char_is_ascii_digit(c) || c == '-' || (custom && (('A' <= c && c <= 'Z') || c == '_'))) {
            return false;
        }
        k = k + 1;
    }
    true
}

/// Whether a custom variant applies globally: its body (without one pair of surrounding
/// parentheses, when the trimmed body has them) does not refer to the selector with `&`.
pub open spec fn spec_custom_variant_is_global(body: Seq<char>) -> bool {
    let trimmed = trim_ws(body);
    let inner = if trimmed.len() >= 2 && trimmed[0] == '(' && trimmed.last() == ')' {
        trimmed.subrange(1, trimmed.len() - 1)
    } else {
        body
    };
    !inner.contains('&')
}

pub fn custom_variant_is_global(body: &str) -> (r: bool)
    ensures
        r == spec_custom_variant_is_global(body@),
{
    let trimmed = trim(body);
    let t = chars_of(trimmed);
    let n = t.len();
    let inner = if n >= 2 && t[0] == '(' && t[n - 1] == ')' {
        trimmed.substring_char(1, n - 1)
    } else {
        body
    };
    !crate::text::contains_char(inner, '&')
}

pub proof fn lemma_leading_whitespace_bounds(s: Seq<char>, i: int)
    requires
        0 <= i <= s.len(),
    ensures
        0 <= crate::text::leading_whitespace(s, i) <= s.len() - i,
    decreases s.len() - i,
{
    if i < s.len() && crate::text::is_whitespace(s[i]) {
        lemma_leading_whitespace_bounds(s, i + 1);
    }
}

/// `s` without the whitespace and complete comments that lead it; an unclosed comment leaves
/// nothing.
pub open spec fn strip_leading_comments(s: Seq<char>) -> Seq<char>
    decreases s.len(),
{
    let t = trim_start_ws(s);
    if t.len() >= 2 && t[0] == '/' && t[1] == '*' {
        proof {
            lemma_leading_whitespace_bounds(s, 0);
            lemma_comment_close_bounds(t, 2);
        }
        match comment_close_from(t, 2) {
            None => Seq::empty(),
            Some(k) => strip_leading_comments(t.subrange(k + 2, t.len() as int)),
        }
    } else {
        t
    }
}

pub fn trim_leading_css_comments(input: &str) -> (r: &str)
    ensures
        r@ == strip_leading_comments(input@),
{
    let mut rest = input;
    loop
        invariant
            strip_leading_comments(input@) == strip_leading_comments(rest@),
        decreases rest@.len(),
    {
        let t = trim_start(rest);
        proof {
            lemma_leading_whitespace_bounds(rest@, 0);
        }
        let chars = chars_of(t);
        let n = chars.len();
        if !(n >= 2 && chars[0] == '/' && chars[1] == '*') {
            return t;
        }
        let mut k: usize = 2;
        while k < n - 1 && !(chars[k] == '*' && chars[k + 1] == '/')
            invariant
                n == chars@.len(),
                n >= 2,
                2 <= k <= n,
                comment_close_from(chars@, 2) == comment_close_from(chars@, k as int),
            decreases n - k,
        {
            k = k + 1;
        }
        if k >= n - 1 {
            proof {
                if k < n {
                    assert(comment_close_from(chars@, k as int) is None);
                }
                reveal_strlit("");
                assert(""@ =~= Seq::<char>::empty());
                assert(strip_leading_comments(rest@) =~= Seq::<char>::empty());
            }
            return "";
        }
        proof {
            lemma_comment_close_bounds(chars@, 2);
        }
        rest = t.substring_char(k + 2, n);
    }
}

/// A declaration `name: value`, both trimmed.
pub struct Declaration<'a> {
    pub name: &'a str,
    pub value: &'a str,
}

/// The declaration a `;`-separated part of a block holds: leading comments dropped, split at
/// its first `:`, name and value trimmed, both nonempty.
pub open spec fn declaration_of(part: Seq<char>) -> Option<(Seq<char>, Seq<char>)> {
    let p = strip_leading_comments(part);
    match first_index_from(p, 0, ':') {
        None => None,
        Some(k) => {
            let name = trim_ws(p.subrange(0, k));
            let value = trim_ws(p.subrange(k + 1, p.len() as int));
            if name.len() > 0 && value.len() > 0 { Some((name, value)) } else { None }
        },
    }
}

/// The declarations among `parts`, in order.
pub open spec fn declarations_of(parts: Seq<Seq<char>>) -> Seq<(Seq<char>, Seq<char>)>
    decreases parts.len(),
{
    if parts.len() == 0 {
        Seq::empty()
    } else {
        let rest = declarations_of(parts.drop_last());
        match declaration_of(parts.last()) {
            Some(d) => rest.push(d),
            None => rest,
        }
    }
}

pub proof fn lemma_first_index_bounds(s: Seq<char>, i: int, c: char)
    requires
        0 <= i,
    ensures
        first_index_from(s, i, c) matches Some(k) ==> i <= k < s.len() && s[k] == c,
    decreases s.len() - i,
{
    if i < s.len() && s[i] != c {
        lemma_first_index_bounds(s, i + 1, c);
    }
}

/// The declarations of a block body: its top-level `;`-separated parts that hold one.
pub fn declarations(content: &str) -> (r: Vec<Declaration>)
    ensures
        r@.map_values(|d: Declaration| (d.name@, d.value@)) == declarations_of(spec_segment(content@, ';')),
{
    let parts = segment(content, 59u8);
    assert(59u8 as char == ';');
    let ghost all = spec_segment(content@, ';');
    let mut result: Vec<Declaration> = Vec::new();
    let mut i: usize = 0;
    while i < parts.len()
        invariant
            views(parts@) == all,
            i <= parts@.len(),
            result@.map_values(|d: Declaration| (d.name@, d.value@)) == declarations_of(all.take(i as int)),
        decreases parts.len() - i,
    {
        let part = trim_leading_css_comments(parts[i]);
        let chars = chars_of(part);
        let n = chars.len();
        let mut k: usize = 0;
        while k < n && chars[k] != ':'
            invariant
                n == chars@.len(),
                k <= n,
                first_index_from(chars@, 0, ':') == first_index_from(chars@, k as int, ':'),
            decreases n - k,
        {
            k = k + 1;
        }
        let ghost before = result@.map_values(|d: Declaration| (d.name@, d.value@));
        assert(all.take(i + 1).drop_last() =~= all.take(i as int));
        assert(all.take(i + 1).last() == parts@[i as int]@);
        if k < n {
            let name = trim(part.substring_char(0, k));
            let value = trim(part.substring_char(k + 1, n));
            if name.unicode_len() > 0 && value.unicode_len() > 0 {
                result.push(Declaration { name, value });
                assert(result@.map_values(|d: Declaration| (d.name@, d.value@)) =~= before.push((name@, value@)));
            }
        }
        i = i + 1;
    }
    assert(all.take(all.len() as int) =~= all);
    result
}

/// A package request split into the package (with its scope, if any) and the subpath inside it.
pub open spec fn spec_package_and_subpath(request: Seq<char>) -> (Seq<char>, Seq<char>) {
    if request.len() > 0 && request[0] == '@' {
        match first_index_from(request, 0, '/') {
            None => (request, Seq::empty()),
            Some(first) => match first_index_from(request, first + 1, '/') {
                None => (request, Seq::empty()),
                Some(second) => (request.subrange(0, second), request.subrange(second + 1, request.len() as int)),
            },
        }
    } else {
        match first_index_from(request, 0, '/') {
            None => (request, Seq::empty()),
            Some(slash) => (request.subrange(0, slash), request.subrange(slash + 1, request.len() as int)),
        }
    }
}

fn slash_from(chars: &Vec<char>, start: usize) -> (r: Option<usize>)
    ensures
        match r {
            Some(k) => first_index_from(chars@, start as int, '/') == Some(k as int) && start <= k < chars@.len(),
            None => first_index_from(chars@, start as int, '/') is None,
        },
{
    let mut k = start;
    while k < chars.len()
        invariant
            start <= k,
            first_index_from(chars@, start as int, '/') == first_index_from(chars@, k as int, '/'),
        decreases chars.len() - k,
    {
        if chars[k] == '/' {
            return Some(k);
        }
        k = k + 1;
    }
    None
}

pub fn package_and_subpath(request: &str) -> (r: (&str, &str))
    ensures
        (r.0@, r.1@) == spec_package_and_subpath(request@),
{
    let chars = chars_of(request);
    let n = chars.len();
    proof {
        reveal_strlit("");
        assert(""@ =~= Seq::<char>::empty());
    }
    let scoped = n > 0 && chars[0] == '@';
    let first = match slash_from(&chars, 0) {
        Some(k) => k,
        None => return (request, ""),
    };
    let split = if scoped {
        match slash_from(&chars, first + 1) {
            Some(k) => k,
            None => return (request, ""),
        }
    } else {
        first
    };
    (request.substring_char(0, split), request.substring_char(split + 1, n))
}

} // verus!
