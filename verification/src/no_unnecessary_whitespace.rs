//! Unnecessary whitespace in a class string: at its edges, doubled between classes, or
//! indenting a line break when line breaks are not allowed to carry it.

use vstd::prelude::*;
use crate::classes::{run_end, lemma_run_end_bounds};
use crate::lint::TailwindLiteral;
use crate::text::{byte_offset, byte_offset_of, run_length, chars_of, char_is_ascii_whitespace, contains_char, is_ascii_whitespace, trim_start_char, trim_start_matches_char};

verus! {

/// Disallows unnecessary whitespace in class strings. With `allow_multiline`, a line break may
/// stay, but the spaces after it before the next class go.
#[derive(Clone, Copy)]
pub struct NoUnnecessaryWhitespace {
    pub allow_multiline: bool,
}

/// A run of whitespace to replace, by byte offsets in the class string.
pub struct WhitespaceFix {
    pub start: usize,
    pub end: usize,
    pub replacement: String,
}

pub open spec fn fix_view(f: WhitespaceFix) -> (int, int, Seq<char>) {
    (f.start as int, f.end as int, f.replacement@)
}

/// What the run of whitespace `w` is replaced with, if anything: nothing at an edge that need
/// not be kept, the line break without the spaces after it when line breaks are allowed, one
/// space for a longer run.
pub open spec fn whitespace_replacement(w: Seq<char>, leading: bool, trailing: bool, lead: bool, trail: bool, allow_multiline: bool) -> Option<Seq<char>> {
    if (leading && !lead) || (trailing && !trail) {
        Some(Seq::empty())
    } else if w.contains('\n') && allow_multiline {
        let trimmed = trim_start_char(w, ' ');
        if trimmed.len() != w.len() { Some(trimmed) } else { None }
    } else if w.len() > 1 {
        Some(seq![' '])
    } else {
        None
    }
}

/// The fixes for the runs of whitespace of `s` from `i` on.
pub open spec fn whitespace_fixes_from(s: Seq<char>, i: int, lead: bool, trail: bool, allow_multiline: bool) -> Seq<(int, int, Seq<char>)>
    decreases s.len() - i,
{
    if i < 0 || i >= s.len() {
        Seq::empty()
    } else if !is_ascii_whitespace(s[i]) {
        whitespace_fixes_from(s, i + 1, lead, trail, allow_multiline)
    } else {
        let end = run_end(s, i, true);
        proof {
            lemma_run_end_bounds(s, i, true);
        }
        match whitespace_replacement(s.subrange(i, end), i == 0, end == s.len(), lead, trail, allow_multiline) {
            Some(r) => seq![(byte_offset(s, i), byte_offset(s, end), r)] + whitespace_fixes_from(s, end, lead, trail, allow_multiline),
            None => whitespace_fixes_from(s, end, lead, trail, allow_multiline),
        }
    }
}

proof fn lemma_leading_spaces(w: Seq<char>, i: int)
    requires
        0 <= i <= w.len(),
    ensures
        i <= i + run_length(w, i, ' ') <= w.len(),
        forall|k: int| i <= k < i + run_length(w, i, ' ') ==> #[trigger] w[k] == ' ',
        i + run_length(w, i, ' ') < w.len() ==> w[i + run_length(w, i, ' ')] != ' ',
    decreases w.len() - i,
{
    if i < w.len() && w[i] == ' ' {
        lemma_leading_spaces(w, i + 1);
    }
}

/// Whether `fix` replaces the whole run of whitespace of `s` at the characters `a..b` (from
/// `i` on), given by byte offsets, with shorter whitespace: nothing at an edge that is not kept,
/// and at least one character elsewhere, so that no two classes are joined. And it keeps the
/// run's line break: when line breaks are allowed and the run holds one, away from an edge that
/// is removed, the replacement is the run without its leading spaces, so it starts at a
/// non-space and still holds the line break.
pub open spec fn fix_of_run(s: Seq<char>, i: int, fix: (int, int, Seq<char>), a: int, b: int, lead: bool, trail: bool, allow_multiline: bool) -> bool {
    &&& i <= a < b <= s.len()
    &&& forall|p: int| a <= p < b ==> is_ascii_whitespace(#[trigger] s[p])
    &&& (a == 0 || !is_ascii_whitespace(s[a - 1])) && (b == s.len() || !is_ascii_whitespace(s[b]))
    &&& fix.0 == byte_offset(s, a) && fix.1 == byte_offset(s, b)
    &&& fix.2.len() < b - a
    &&& forall|p: int| 0 <= p < fix.2.len() ==> is_ascii_whitespace(#[trigger] fix.2[p])
    &&& ((a > 0 || lead) && (b < s.len() || trail)) == (fix.2.len() > 0)
    &&& (allow_multiline && s.subrange(a, b).contains('\n') && (a > 0 || lead) && (b < s.len() || trail)) ==> {
        &&& fix.2.contains('\n')
        &&& fix.2 == s.subrange(b - fix.2.len(), b)
        &&& fix.2.len() > 0 && fix.2[0] != ' '
        &&& forall|p: int| a <= p < b - fix.2.len() ==> #[trigger] s[p] == ' '
    }
}

/// Whether `fix` replaces some run of whitespace of `s` from `i` on and keeps its line break.
pub open spec fn fix_of_some_run(s: Seq<char>, i: int, fix: (int, int, Seq<char>), lead: bool, trail: bool, allow_multiline: bool) -> bool {
    exists|a: int, b: int| #[trigger] fix_of_run(s, i, fix, a, b, lead, trail, allow_multiline)
}

/// Whether every fix of `fixes` replaces a run of whitespace of `s` from `i` on and keeps its
/// line break.
pub open spec fn keeps_line_breaks(s: Seq<char>, i: int, fixes: Seq<(int, int, Seq<char>)>, lead: bool, trail: bool, allow_multiline: bool) -> bool {
    forall|k: int| 0 <= k < fixes.len() ==> #[trigger] fix_of_some_run(s, i, fixes[k], lead, trail, allow_multiline)
}

proof fn lemma_fixes_keep_line_breaks(s: Seq<char>, i: int, lead: bool, trail: bool, allow: bool)
    requires
        0 <= i <= s.len(),
        i == 0 || i == s.len() || !is_ascii_whitespace(s[i - 1]) || !is_ascii_whitespace(s[i]),
    ensures
        keeps_line_breaks(s, i, whitespace_fixes_from(s, i, lead, trail, allow), lead, trail, allow),
    decreases s.len() - i,
{
    let fixes = whitespace_fixes_from(s, i, lead, trail, allow);
    if i < s.len() {
        if !is_ascii_whitespace(s[i]) {
            lemma_fixes_keep_line_breaks(s, i + 1, lead, trail, allow);
            let rest = whitespace_fixes_from(s, i + 1, lead, trail, allow);
            assert forall|k: int| 0 <= k < fixes.len() implies #[trigger] fix_of_some_run(s, i, fixes[k], lead, trail, allow) by {
                assert(fix_of_some_run(s, i + 1, rest[k], lead, trail, allow));
                let (a, b) = choose|a: int, b: int| #[trigger] fix_of_run(s, i + 1, rest[k], a, b, lead, trail, allow);
                assert(fix_of_run(s, i, fixes[k], a, b, lead, trail, allow));
            }
        } else {
            let end = run_end(s, i, true);
            lemma_run_end_bounds(s, i, true);
            lemma_fixes_keep_line_breaks(s, end, lead, trail, allow);
            let rest = whitespace_fixes_from(s, end, lead, trail, allow);
            let w = s.subrange(i, end);
            match whitespace_replacement(w, i == 0, end == s.len(), lead, trail, allow) {
                Some(r) => {
                    assert(fixes == seq![(byte_offset(s, i), byte_offset(s, end), r)] + rest);
                    assert forall|k: int| 0 <= k < fixes.len() implies #[trigger] fix_of_some_run(s, i, fixes[k], lead, trail, allow) by {
                        if k == 0 {
                            assert(fixes[0] == (byte_offset(s, i), byte_offset(s, end), r));
                            assert(i == 0 || !is_ascii_whitespace(s[i - 1]));
                            if !((i > 0 || lead) && (end < s.len() || trail)) {
                                assert(r.len() == 0);
                            } else if w.contains('\n') && allow {
                                lemma_leading_spaces(w, 0);
                                let n = run_length(w, 0, ' ');
                                let q = choose|q: int| 0 <= q < w.len() && w[q] == '\n';
                                assert(q >= n);
                                assert(r[q - n] == '\n');
                                assert forall|p: int| 0 <= p < r.len() implies is_ascii_whitespace(#[trigger] r[p]) by {
                                    assert(r[p] == s[i + n + p]);
                                }
                            } else {
                                assert(r =~= seq![' ']);
                                assert(is_ascii_whitespace(r[0]));
                            }
                            if allow && w.contains('\n') && (i > 0 || lead) && (end < s.len() || trail) {
                                lemma_leading_spaces(w, 0);
                                let n = run_length(w, 0, ' ');
                                assert(r == w.subrange(n, w.len() as int));
                                let q = choose|q: int| 0 <= q < w.len() && w[q] == '\n';
                                assert(q >= n);
                                assert(r[q - n] == '\n');
                                assert(r.contains('\n'));
                                assert(r =~= s.subrange(end - r.len(), end));
                                assert(r[0] == w[n]);
                                assert forall|p: int| i <= p < end - r.len() implies #[trigger] s[p] == ' ' by {
                                    assert(s[p] == w[p - i]);
                                }
                            }
                            assert(fix_of_run(s, i, fixes[k], i, end, lead, trail, allow));
                        } else {
                            assert(fixes[k] == rest[k - 1]);
                            assert(fix_of_some_run(s, end, rest[k - 1], lead, trail, allow));
                            let (a, b) = choose|a: int, b: int| #[trigger] fix_of_run(s, end, rest[k - 1], a, b, lead, trail, allow);
                            assert(fix_of_run(s, i, fixes[k], a, b, lead, trail, allow));
                        }
                    }
                },
                None => {
                    assert(fixes == rest);
                    assert forall|k: int| 0 <= k < fixes.len() implies #[trigger] fix_of_some_run(s, i, fixes[k], lead, trail, allow) by {
                        assert(fix_of_some_run(s, end, rest[k], lead, trail, allow));
                        let (a, b) = choose|a: int, b: int| #[trigger] fix_of_run(s, end, rest[k], a, b, lead, trail, allow);
                        assert(fix_of_run(s, i, fixes[k], a, b, lead, trail, allow));
                    }
                },
            }
        }
    }
}

/// With line breaks allowed, a fix never removes a line break: every fix replaces a run of
/// whitespace of the class string, and when that run holds a line break (and is not at an edge
/// that is removed), the replacement is the run with only its leading spaces dropped, so it
/// starts at a non-space and still holds the line break.
pub proof fn fixes_keep_line_breaks(s: Seq<char>, lead: bool, trail: bool, allow_multiline: bool)
    ensures
        keeps_line_breaks(s, 0, whitespace_fixes_from(s, 0, lead, trail, allow_multiline), lead, trail, allow_multiline),
{
    lemma_fixes_keep_line_breaks(s, 0, lead, trail, allow_multiline);
}

impl NoUnnecessaryWhitespace {
    /// The default configuration: line breaks are allowed.
    pub fn new() -> (r: Self)
        ensures
            r.allow_multiline,
    {
        NoUnnecessaryWhitespace { allow_multiline: true }
    }

    /// The unnecessary runs of whitespace in the class string `content` of `literal`, in
    /// order, each with its replacement.
    pub fn check(&self, literal: &TailwindLiteral, content: &str) -> (r: Vec<WhitespaceFix>)
        ensures
            r@.map_values(|f: WhitespaceFix| fix_view(f)) == whitespace_fixes_from(content@, 0, literal.keep_leading, literal.keep_trailing, self.allow_multiline),
    {
        let chars = chars_of(content);
        let n = chars.len();
        let ghost s = content@;
        let lead = literal.keep_leading;
        let trail = literal.keep_trailing;
        let allow = self.allow_multiline;
        let mut fixes: Vec<WhitespaceFix> = Vec::new();
        let mut index: usize = 0;
        proof {
            assert(fixes@.map_values(|f: WhitespaceFix| fix_view(f)) =~= Seq::<(int, int, Seq<char>)>::empty());
        }
        while index < n
            invariant
                n == s.len(),
                chars@ == s,
                s == content@,
                index <= n,
                whitespace_fixes_from(s, 0, lead, trail, allow)
                    == fixes@.map_values(|f: WhitespaceFix| fix_view(f)) + whitespace_fixes_from(s, index as int, lead, trail, allow),
            decreases n - index,
        {
            if !char_is_ascii_whitespace(chars[index]) {
                index = index + 1;
                continue;
            }
            let start = index;
            while index < n && char_is_ascii_whitespace(chars[index])
                invariant
                    n == s.len(),
                    chars@ == s,
                    start <= index <= n,
                    run_end(s, start as int, true) == run_end(s, index as int, true),
                decreases n - index,
            {
                index = index + 1;
            }
            let end = index;
            proof {
                lemma_run_end_bounds(s, start as int, true);
            }
            let whitespace = content.substring_char(start, end);
            let is_leading = start == 0;
            let is_trailing = end == n;
            let ghost expected = whitespace_replacement(s.subrange(start as int, end as int), is_leading, is_trailing, lead, trail, allow);
            let replacement: Option<String> = if (is_leading && !lead) || (is_trailing && !trail) {
                Some(String::new())
            } else if contains_char(whitespace, '\n') && allow {
                let trimmed = trim_start_matches_char(whitespace, ' ');
                if trimmed.unicode_len() != whitespace.unicode_len() { Some(trimmed.to_owned()) } else { None }
            } else if end - start > 1 {
                Some(" ".to_owned())
            } else {
                None
            };
            proof {
                reveal_strlit(" ");
                assert(" "@ =~= seq![' ']);
            }
            let ghost before = fixes@.map_values(|f: WhitespaceFix| fix_view(f));
            match replacement {
                Some(text) => {
                    assert(expected == Some(text@));
                    fixes.push(WhitespaceFix { start: byte_offset_of(content, start), end: byte_offset_of(content, end), replacement: text });
                    assert(fixes@.map_values(|f: WhitespaceFix| fix_view(f)) =~= before.push((byte_offset(s, start as int), byte_offset(s, end as int), expected.unwrap())));
                },
                None => {
                    assert(expected is None);
                },
            }
        }
        assert(whitespace_fixes_from(s, index as int, lead, trail, allow) =~= Seq::<(int, int, Seq<char>)>::empty());
        assert(fixes@.map_values(|f: WhitespaceFix| fix_view(f)) + Seq::<(int, int, Seq<char>)>::empty() =~= fixes@.map_values(|f: WhitespaceFix| fix_view(f)));
        fixes
    }
}

} // verus!
