//! The syntactic view of a class string that the lint rules share: whitespace-separated classes,
//! the top-level variants of a class, and the utility base inside it.

use vstd::prelude::*;
use vstd::string::StrSliceExecFns;
use vstd::utf8::encode_utf8;
use crate::segment::{pieces, lemma_pieces_join};
use crate::lint::{SourceSpan, TailwindLiteral};
use crate::text::{byte_offset, byte_offset_of, lemma_byte_offset_bounds, lemma_byte_slice, chars_of, is_ascii_whitespace, char_is_ascii_whitespace, push_char, push_str, views, join_with};

verus! {

/// The positions of the colons of `s`, from `i` on, that stand outside square brackets and
/// parentheses and are not escaped. Closers never take a depth below zero, and the two kinds
/// of bracket are counted separately.
pub open spec fn top_level_colons(s: Seq<char>, i: int, square: nat, paren: nat, escaped: bool) -> Seq<int>
    decreases s.len() - i,
{
    if i < 0 || i >= s.len() {
        Seq::empty()
    } else if escaped {
        top_level_colons(s, i + 1, square, paren, false)
    } else {
        let c = s[i];
        if c == '\\' {
            top_level_colons(s, i + 1, square, paren, true)
        } else if c == '[' {
            top_level_colons(s, i + 1, square + 1, paren, false)
        } else if c == ']' {
            top_level_colons(s, i + 1, if square > 0 { (square - 1) as nat } else { 0 }, paren, false)
        } else if c == '(' {
            top_level_colons(s, i + 1, square, paren + 1, false)
        } else if c == ')' {
            top_level_colons(s, i + 1, square, if paren > 0 { (paren - 1) as nat } else { 0 }, false)
        } else if c == ':' && square == 0 && paren == 0 {
            seq![i] + top_level_colons(s, i + 1, square, paren, false)
        } else {
            top_level_colons(s, i + 1, square, paren, false)
        }
    }
}

/// The colons of a class name that separate its variants.
pub open spec fn variant_colons(s: Seq<char>) -> Seq<int> {
    top_level_colons(s, 0, 0, 0, false)
}

/// Where the utility segment of a class name starts: after its last top-level colon.
pub open spec fn utility_start(s: Seq<char>) -> int {
    let colons = variant_colons(s);
    if colons.len() == 0 { 0 } else { colons.last() + 1 }
}

pub proof fn lemma_top_level_colons_bounds(s: Seq<char>, i: int, square: nat, paren: nat, escaped: bool)
    requires
        0 <= i,
    ensures
        forall|k: int| 0 <= k < top_level_colons(s, i, square, paren, escaped).len() ==> {
            let p = #[trigger] top_level_colons(s, i, square, paren, escaped)[k];
            i <= p < s.len() && s[p] == ':'
        },
        forall|k: int, m: int| 0 <= k < m < top_level_colons(s, i, square, paren, escaped).len()
            ==> top_level_colons(s, i, square, paren, escaped)[k] < top_level_colons(s, i, square, paren, escaped)[m],
    decreases s.len() - i,
{
    if i < s.len() {
        let c = s[i];
        let (sq, pa, es) = if escaped {
            (square, paren, false)
        } else if c == '\\' {
            (square, paren, true)
        } else if c == '[' {
            (square + 1, paren, false)
        } else if c == ']' {
            (if square > 0 { (square - 1) as nat } else { 0nat }, paren, false)
        } else if c == '(' {
            (square, paren + 1, false)
        } else if c == ')' {
            (square, if paren > 0 { (paren - 1) as nat } else { 0nat }, false)
        } else {
            (square, paren, false)
        };
        lemma_top_level_colons_bounds(s, i + 1, sq, pa, es);
        let rest = top_level_colons(s, i + 1, sq, pa, es);
        if !escaped && c == ':' && square == 0 && paren == 0 {
            assert(top_level_colons(s, i, square, paren, escaped) == seq![i] + rest);
            assert forall|k: int| 0 <= k < top_level_colons(s, i, square, paren, escaped).len() implies {
                let p = #[trigger] top_level_colons(s, i, square, paren, escaped)[k];
                i <= p < s.len() && s[p] == ':'
            } by {
                if k > 0 {
                    assert(top_level_colons(s, i, square, paren, escaped)[k] == rest[k - 1]);
                }
            }
            assert forall|k: int, m: int| 0 <= k < m < top_level_colons(s, i, square, paren, escaped).len()
                implies top_level_colons(s, i, square, paren, escaped)[k] < top_level_colons(s, i, square, paren, escaped)[m] by {
                assert(top_level_colons(s, i, square, paren, escaped)[m] == rest[m - 1]);
                if k > 0 {
                    assert(top_level_colons(s, i, square, paren, escaped)[k] == rest[k - 1]);
                }
            }
        } else {
            assert(top_level_colons(s, i, square, paren, escaped) == rest);
        }
    }
}

/// The scanner of `variant_colons`, run over a whole class name.
fn find_variant_colons(chars: &Vec<char>) -> (colons: Vec<usize>)
    ensures
        colons@.map_values(|p: usize| p as int) == variant_colons(chars@),
{
    let n = chars.len();
    let mut colons: Vec<usize> = Vec::new();
    let mut square: usize = 0;
    let mut paren: usize = 0;
    let mut escaped = false;
    let mut index: usize = 0;
    while index < n
        invariant
            n == chars@.len(),
            index <= n,
            square <= index,
            paren <= index,
            variant_colons(chars@) == colons@.map_values(|p: usize| p as int)
                + top_level_colons(chars@, index as int, square as nat, paren as nat, escaped),
        decreases n - index,
    {
        let c = chars[index];
        let ghost before = colons@.map_values(|p: usize| p as int);
        if escaped {
            escaped = false;
        } else if c == '\\' {
            escaped = true;
        } else if c == '[' {
            square = square + 1;
        } else if c == ']' {
            if square > 0 {
                square = square - 1;
            }
        } else if c == '(' {
            paren = paren + 1;
        } else if c == ')' {
            if paren > 0 {
                paren = paren - 1;
            }
        } else if c == ':' && square == 0 && paren == 0 {
            colons.push(index);
            assert(colons@.map_values(|p: usize| p as int) =~= before.push(index as int));
        }
        index = index + 1;
    }
    assert(variant_colons(chars@) =~= colons@.map_values(|p: usize| p as int));
    colons
}

/// Where the utility base starts inside `w`, the utility segment without its trailing `!`, and
/// whether a leading `!` was seen: up to two leading marks are skipped, each either the first `!`
/// or a `-`.
pub open spec fn base_marks(w: Seq<char>) -> (int, bool) {
    if w.len() == 0 || (w[0] != '!' && w[0] != '-') {
        (0, false)
    } else {
        let important = w[0] == '!';
        if w.len() > 1 && w[1] == '!' && !important {
            (2, true)
        } else if w.len() > 1 && w[1] == '-' {
            (2, important)
        } else {
            (1, important)
        }
    }
}

/// The syntactic parts of a class name, as positions: where the utility segment starts, where
/// the base starts and ends, and where the important marks are.
pub struct CandidateLayout {
    pub segment_start: int,
    pub base_start: int,
    pub base_end: int,
    pub important_at_start: bool,
    pub important_at_end: bool,
}

pub open spec fn candidate_layout(s: Seq<char>) -> CandidateLayout {
    let start = utility_start(s);
    let segment = s.subrange(start, s.len() as int);
    let at_end = segment.len() > 0 && segment.last() == '!';
    let without_end = if at_end { segment.drop_last() } else { segment };
    let (marks, at_start) = base_marks(without_end);
    CandidateLayout {
        segment_start: start,
        base_start: start + marks,
        base_end: start + without_end.len(),
        important_at_start: at_start,
        important_at_end: at_end,
    }
}

/// Syntactic parts of a Tailwind candidate. Colons inside arbitrary variants and values are
/// ignored, so `hover:[&:focus]:-mt-[var(--gap)]!` is split at the final top-level colon.
#[derive(Clone, Copy)]
pub struct TailwindCandidate<'a> {
    /// Everything before the utility segment, including its last colon.
    pub variant_prefix: &'a str,
    /// Everything before the utility base: variants and leading marks.
    pub before_base: &'a str,
    pub base: &'a str,
    /// Everything after the base: the trailing `!`, if any.
    pub after_base: &'a str,
    pub important_at_start: bool,
    pub important_at_end: bool,
}

impl<'a> TailwindCandidate<'a> {
    /// Whether `self` holds the parts of `class_name`.
    pub open spec fn parts_of(&self, class_name: Seq<char>) -> bool {
        let layout = candidate_layout(class_name);
        &&& self.variant_prefix@ == class_name.subrange(0, layout.segment_start)
        &&& self.before_base@ == class_name.subrange(0, layout.base_start)
        &&& self.base@ == class_name.subrange(layout.base_start, layout.base_end)
        &&& self.after_base@ == class_name.subrange(layout.base_end, class_name.len() as int)
        &&& self.important_at_start == layout.important_at_start
        &&& self.important_at_end == layout.important_at_end
    }

    pub fn parse(class_name: &'a str) -> (c: Self)
        ensures
            c.parts_of(class_name@),
    {
        let chars = chars_of(class_name);
        let n = chars.len();
        let colons = find_variant_colons(&chars);
        let ghost s = class_name@;
        proof {
            lemma_top_level_colons_bounds(s, 0, 0, 0, false);
            if colons@.len() > 0 {
                assert(colons@.map_values(|p: usize| p as int)[colons@.len() - 1] == colons@[colons@.len() - 1] as int);
            }
        }
        let segment_start: usize = if colons.len() == 0 { 0 } else { colons[colons.len() - 1] + 1 };
        assert(segment_start as int == utility_start(s));
        let important_at_end = segment_start < n && chars[n - 1] == '!';
        let without_end_end: usize = if important_at_end { n - 1 } else { n };
        let ghost without_end = s.subrange(segment_start as int, without_end_end as int);
        assert(without_end =~= {
            let segment = s.subrange(segment_start as int, s.len() as int);
            if important_at_end { segment.drop_last() } else { segment }
        });
        let mut base_start: usize = segment_start;
        let mut important_at_start = false;
        if base_start < without_end_end && (chars[base_start] == '!' || chars[base_start] == '-') {
            important_at_start = chars[base_start] == '!';
            base_start = base_start + 1;
            if base_start < without_end_end && chars[base_start] == '!' && !important_at_start {
                important_at_start = true;
                base_start = base_start + 1;
            } else if base_start < without_end_end && chars[base_start] == '-' {
                base_start = base_start + 1;
            }
        }
        assert(base_marks(without_end) == ((base_start - segment_start) as int, important_at_start));
        TailwindCandidate {
            variant_prefix: class_name.substring_char(0, segment_start),
            before_base: class_name.substring_char(0, base_start),
            base: class_name.substring_char(base_start, without_end_end),
            after_base: class_name.substring_char(without_end_end, n),
            important_at_start,
            important_at_end,
        }
    }

    /// The class name with its base replaced by `base`.
    pub fn replace_base(self, base: &str) -> (r: String)
        ensures
            r@ == self.before_base@ + base@ + self.after_base@,
    {
        let mut output = self.before_base.to_owned();
        push_str(&mut output, base);
        push_str(&mut output, self.after_base);
        output
    }

    /// The class name with its important mark moved to the end (`to_end`) or to the start of the
    /// utility segment; leading `!`s before the base are dropped and the other marks are kept.
    pub fn move_important(self, class_name: &str, to_end: bool) -> (r: String)
        requires
            is_prefix_of(self.variant_prefix@, self.before_base@),
        ensures
            r@ == self.variant_prefix@ + (if to_end { Seq::empty() } else { seq!['!'] })
                + without_char(self.before_base@.subrange(self.variant_prefix@.len() as int, self.before_base@.len() as int), '!')
                + self.base@ + (if to_end { seq!['!'] } else { Seq::empty() }),
    {
        let mut output = self.variant_prefix.to_owned();
        if !to_end {
            push_char(&mut output, '!');
        }
        let marks = chars_of(self.before_base);
        let start = self.variant_prefix.unicode_len();
        let ghost head = output@;
        let ghost tail = self.before_base@.subrange(start as int, self.before_base@.len() as int);
        let mut i = start;
        while i < marks.len()
            invariant
                marks@ == self.before_base@,
                start <= i <= marks@.len(),
                tail == marks@.subrange(start as int, marks@.len() as int),
                output@ == head + without_char(marks@.subrange(start as int, i as int), '!'),
            decreases marks.len() - i,
        {
            let c = marks[i];
            proof {
                lemma_without_char_push(marks@.subrange(start as int, i as int), c, '!');
                assert(marks@.subrange(start as int, i + 1) =~= marks@.subrange(start as int, i as int).push(c));
            }
            if c != '!' {
                push_char(&mut output, c);
            }
            i = i + 1;
        }
        push_str(&mut output, self.base);
        if to_end {
            push_char(&mut output, '!');
        }
        proof {
            if to_end {
                assert(output@ =~= self.variant_prefix@ + Seq::<char>::empty() + without_char(tail, '!') + self.base@ + seq!['!']);
            } else {
                assert(output@ =~= self.variant_prefix@ + seq!['!'] + without_char(tail, '!') + self.base@ + Seq::<char>::empty());
            }
        }
        output
    }
}

pub open spec fn is_prefix_of(p: Seq<char>, s: Seq<char>) -> bool {
    p.len() <= s.len() && s.subrange(0, p.len() as int) == p
}

/// `s` with every `c` removed.
pub open spec fn without_char(s: Seq<char>, c: char) -> Seq<char>
    decreases s.len(),
{
    if s.len() == 0 {
        s
    } else if s.last() == c {
        without_char(s.drop_last(), c)
    } else {
        without_char(s.drop_last(), c).push(s.last())
    }
}

proof fn lemma_without_char_push(s: Seq<char>, x: char, c: char)
    ensures
        without_char(s.push(x), c) == if x == c { without_char(s, c) } else { without_char(s, c).push(x) },
{
    assert(s.push(x).drop_last() =~= s);
}

/// A character that the colon scan passes over without changing its state.
pub open spec fn scan_neutral(c: char) -> bool {
    c != '\\' && c != '[' && c != ']' && c != '(' && c != ')' && c != ':'
}

/// The scan of `x` from `i + d` is the scan of `x` without its first `d` characters from `i`,
/// shifted by `d`.
proof fn lemma_colons_shift(x: Seq<char>, d: int, i: int, square: nat, paren: nat, escaped: bool)
    requires
        0 <= d <= x.len(),
        0 <= i,
    ensures
        top_level_colons(x, i + d, square, paren, escaped)
            == top_level_colons(x.subrange(d, x.len() as int), i, square, paren, escaped).map_values(|p: int| p + d),
    decreases x.len() - d - i,
{
    let y = x.subrange(d, x.len() as int);
    if i < y.len() {
        assert(x[i + d] == y[i]);
        let c = y[i];
        let (sq, pa, es) = if escaped {
            (square, paren, false)
        } else if c == '\\' {
            (square, paren, true)
        } else if c == '[' {
            (square + 1, paren, false)
        } else if c == ']' {
            (if square > 0 { (square - 1) as nat } else { 0nat }, paren, false)
        } else if c == '(' {
            (square, paren + 1, false)
        } else if c == ')' {
            (square, if paren > 0 { (paren - 1) as nat } else { 0nat }, false)
        } else {
            (square, paren, false)
        };
        lemma_colons_shift(x, d, i + 1, sq, pa, es);
        let rest = top_level_colons(y, i + 1, sq, pa, es);
        if !escaped && c == ':' && square == 0 && paren == 0 {
            assert((seq![i] + rest).map_values(|p: int| p + d) =~= seq![i + d] + rest.map_values(|p: int| p + d));
        }
    } else {
        assert(top_level_colons(y, i, square, paren, escaped).map_values(|p: int| p + d) =~= Seq::<int>::empty());
    }
}

/// A scan over neutral characters only finds nothing.
proof fn lemma_colons_neutral(x: Seq<char>, i: int, square: nat, paren: nat, escaped: bool)
    requires
        0 <= i,
        forall|k: int| i <= k < x.len() ==> scan_neutral(#[trigger] x[k]),
    ensures
        top_level_colons(x, i, square, paren, escaped) == Seq::<int>::empty(),
    decreases x.len() - i,
{
    if i < x.len() {
        lemma_colons_neutral(x, i + 1, square, paren, false);
    }
}

/// Neutral characters after `r` add nothing to its scan.
proof fn lemma_colons_neutral_suffix(r: Seq<char>, e: Seq<char>, i: int, square: nat, paren: nat, escaped: bool)
    requires
        0 <= i,
        forall|k: int| 0 <= k < e.len() ==> scan_neutral(#[trigger] e[k]),
    ensures
        top_level_colons(r + e, i, square, paren, escaped) == top_level_colons(r, i, square, paren, escaped),
    decreases r.len() - i,
{
    let x = r + e;
    if i < r.len() {
        assert(x[i] == r[i]);
        let c = r[i];
        let (sq, pa, es) = if escaped {
            (square, paren, false)
        } else if c == '\\' {
            (square, paren, true)
        } else if c == '[' {
            (square + 1, paren, false)
        } else if c == ']' {
            (if square > 0 { (square - 1) as nat } else { 0nat }, paren, false)
        } else if c == '(' {
            (square, paren + 1, false)
        } else if c == ')' {
            (square, if paren > 0 { (paren - 1) as nat } else { 0nat }, false)
        } else {
            (square, paren, false)
        };
        lemma_colons_neutral_suffix(r, e, i + 1, sq, pa, es);
    } else {
        assert forall|k: int| i <= k < x.len() implies scan_neutral(#[trigger] x[k]) by {
            assert(x[k] == e[k - r.len()]);
        }
        lemma_colons_neutral(x, i, square, paren, escaped);
    }
}

/// Unescaped neutral characters leave the scan's state as it is.
proof fn lemma_colons_neutral_prefix(x: Seq<char>, i: int, n: int, square: nat, paren: nat)
    requires
        0 <= i,
        0 <= n,
        i + n <= x.len(),
        forall|k: int| i <= k < i + n ==> scan_neutral(#[trigger] x[k]),
    ensures
        top_level_colons(x, i, square, paren, false) == top_level_colons(x, i + n, square, paren, false),
    decreases n,
{
    if n > 0 {
        lemma_colons_neutral_prefix(x, i + 1, n - 1, square, paren);
    }
}

/// Two texts that agree up to a counted colon `q` of the first scan alike up to it: both scans
/// are what comes before `q`, then `q`, then the scan after `q` from the top level.
proof fn lemma_colons_agree(s: Seq<char>, t: Seq<char>, i: int, square: nat, paren: nat, escaped: bool, q: int)
    requires
        0 <= i <= q < s.len(),
        q < t.len(),
        forall|k: int| i <= k <= q ==> #[trigger] s[k] == t[k],
        top_level_colons(s, i, square, paren, escaped).contains(q),
    ensures
        top_level_colons(s, i, square, paren, escaped).len() >= top_level_colons(s, q + 1, 0, 0, false).len(),
        top_level_colons(s, i, square, paren, escaped) == top_level_colons(s, i, square, paren, escaped).take(
            top_level_colons(s, i, square, paren, escaped).len() - top_level_colons(s, q + 1, 0, 0, false).len()) + top_level_colons(s, q + 1, 0, 0, false),
        top_level_colons(t, i, square, paren, escaped) == top_level_colons(s, i, square, paren, escaped).take(
            top_level_colons(s, i, square, paren, escaped).len() - top_level_colons(s, q + 1, 0, 0, false).len()) + top_level_colons(t, q + 1, 0, 0, false),
    decreases q - i,
{
    let c = s[i];
    assert(t[i] == c);
    let (sq, pa, es) = if escaped {
        (square, paren, false)
    } else if c == '\\' {
        (square, paren, true)
    } else if c == '[' {
        (square + 1, paren, false)
    } else if c == ']' {
        (if square > 0 { (square - 1) as nat } else { 0nat }, paren, false)
    } else if c == '(' {
        (square, paren + 1, false)
    } else if c == ')' {
        (square, if paren > 0 { (paren - 1) as nat } else { 0nat }, false)
    } else {
        (square, paren, false)
    };
    let counted = !escaped && c == ':' && square == 0 && paren == 0;
    let whole = top_level_colons(s, i, square, paren, escaped);
    let rest = top_level_colons(s, i + 1, sq, pa, es);
    lemma_top_level_colons_bounds(s, i + 1, sq, pa, es);
    if i == q {
        if !counted {
            assert(whole == rest);
            let k = choose|k: int| 0 <= k < whole.len() && whole[k] == q;
            assert(rest[k] >= i + 1);
        }
        assert(whole == seq![q] + top_level_colons(s, q + 1, 0, 0, false));
        assert(whole.take(1) =~= seq![q]);
    } else {
        if counted {
            assert(whole == seq![i] + rest);
            let k = choose|k: int| 0 <= k < whole.len() && whole[k] == q;
            assert(k > 0);
            assert(rest[k - 1] == q);
        } else {
            assert(whole == rest);
        }
        assert(rest.contains(q));
        lemma_colons_agree(s, t, i + 1, sq, pa, es, q);
        let tail = top_level_colons(s, q + 1, 0, 0, false);
        if counted {
            assert(whole.take(whole.len() - tail.len()) =~= seq![i] + rest.take(rest.len() - tail.len()));
        }
    }
}

/// The scan of marks, a base and a trailing mark, from the top level, is the scan of the base.
proof fn lemma_segment_scan(n: Seq<char>, b: Seq<char>, e: Seq<char>)
    requires
        forall|k: int| 0 <= k < n.len() ==> scan_neutral(#[trigger] n[k]),
        forall|k: int| 0 <= k < e.len() ==> scan_neutral(#[trigger] e[k]),
    ensures
        top_level_colons(n + b + e, 0, 0, 0, false).len() == top_level_colons(b, 0, 0, 0, false).len(),
{
    let x = n + b + e;
    assert forall|k: int| 0 <= k < 0 + n.len() implies scan_neutral(#[trigger] x[k]) by {
        assert(x[k] == n[k]);
    }
    lemma_colons_neutral_prefix(x, 0, n.len() as int, 0, 0);
    lemma_colons_shift(x, n.len() as int, 0, 0, 0, false);
    assert(x.subrange(n.len() as int, x.len() as int) =~= b + e);
    lemma_colons_neutral_suffix(b, e, 0, 0, 0, false);
}

proof fn lemma_without_marks(m: Seq<char>)
    requires
        m =~= Seq::<char>::empty() || m =~= seq!['!'] || m =~= seq!['-'] || m =~= seq!['!', '-'] || m =~= seq!['-', '!'],
    ensures
        without_char(m, '!') =~= (if m.contains('-') { seq!['-'] } else { Seq::<char>::empty() }),
{
    reveal_with_fuel(without_char, 3);
    if m =~= seq!['!', '-'] {
        assert(m.drop_last() =~= seq!['!']);
        assert(seq!['!'].drop_last() =~= Seq::<char>::empty());
        assert(m.contains('-')) by { assert(m[1] == '-'); }
    } else if m =~= seq!['-', '!'] {
        assert(m.drop_last() =~= seq!['-']);
        assert(seq!['-'].drop_last() =~= Seq::<char>::empty());
        assert(m.contains('-')) by { assert(m[0] == '-'); }
    } else if m =~= seq!['-'] {
        assert(m.drop_last() =~= Seq::<char>::empty());
        assert(m.contains('-')) by { assert(m[0] == '-'); }
    } else if m =~= seq!['!'] {
        assert(m.drop_last() =~= Seq::<char>::empty());
        assert(!m.contains('-'));
    } else {
        assert(!m.contains('-'));
    }
}

/// Two class names that agree up to the utility segment of the first, and whose segments scan
/// alike, have their utility segments at the same place.
proof fn lemma_same_utility_start(s: Seq<char>, t: Seq<char>, l: int)
    requires
        utility_start(s) == l,
        0 <= l <= s.len(),
        l <= t.len(),
        s.subrange(0, l) == t.subrange(0, l),
        top_level_colons(s.subrange(l, s.len() as int), 0, 0, 0, false).len()
            == top_level_colons(t.subrange(l, t.len() as int), 0, 0, 0, false).len(),
    ensures
        utility_start(t) == l,
{
    let cs = variant_colons(s);
    lemma_top_level_colons_bounds(s, 0, 0, 0, false);
    lemma_colons_shift(s, l, 0, 0, 0, false);
    lemma_colons_shift(t, l, 0, 0, 0, false);
    if cs.len() == 0 {
        assert(l == 0);
        assert(variant_colons(t).len() == 0);
    } else {
        let q = cs.last();
        assert(l == q + 1);
        assert(cs.contains(q)) by { assert(cs[cs.len() - 1] == q); }
        assert forall|k: int| 0 <= k <= q implies #[trigger] s[k] == t[k] by {
            assert(s[k] == s.subrange(0, l)[k]);
            assert(t[k] == t.subrange(0, l)[k]);
        }
        lemma_colons_agree(s, t, 0, 0, 0, false, q);
        let tail = top_level_colons(s, q + 1, 0, 0, false);
        lemma_top_level_colons_bounds(s, q + 1, 0, 0, false);
        if tail.len() > 0 {
            assert(cs[cs.len() - 1] == tail[tail.len() - 1]);
        }
        assert(top_level_colons(t, q + 1, 0, 0, false) =~= Seq::<int>::empty());
        assert(variant_colons(t) =~= cs);
    }
}

/// The utility segment of a parsed class name: one or two marks, the base, and a trailing `!`
/// or nothing.
proof fn lemma_candidate_segment(s: Seq<char>, c: TailwindCandidate)
    requires
        c.parts_of(s),
    ensures
        0 <= candidate_layout(s).segment_start == c.variant_prefix@.len() <= s.len(),
        c.variant_prefix@ == s.subrange(0, candidate_layout(s).segment_start),
        s.subrange(candidate_layout(s).segment_start, s.len() as int)
            == c.before_base@.subrange(c.variant_prefix@.len() as int, c.before_base@.len() as int) + c.base@ + c.after_base@,
        ({
            let m = c.before_base@.subrange(c.variant_prefix@.len() as int, c.before_base@.len() as int);
            m =~= Seq::<char>::empty() || m =~= seq!['!'] || m =~= seq!['-'] || m =~= seq!['!', '-']
                || m =~= seq!['-', '!'] || m =~= seq!['-', '-']
        }),
        c.after_base@ =~= Seq::<char>::empty() || c.after_base@ =~= seq!['!'],
{
    lemma_layout_bounds(s);
    let ls = candidate_layout(s);
    let l = ls.segment_start;
    let segment = s.subrange(l, s.len() as int);
    let w = if ls.important_at_end { segment.drop_last() } else { segment };
    let (marks, imp) = base_marks(w);
    let m = s.subrange(l, ls.base_start);
    assert(c.before_base@.subrange(c.variant_prefix@.len() as int, c.before_base@.len() as int) =~= m);
    if marks == 1 {
        assert(m =~= seq![w[0]]);
    } else if marks == 2 {
        assert(m =~= seq![w[0], w[1]]);
    } else {
        assert(m =~= Seq::<char>::empty());
    }
    assert(c.after_base@ =~= (if ls.important_at_end { seq!['!'] } else { Seq::<char>::empty() }));
    assert(segment =~= m + c.base@ + c.after_base@);
}

/// The layout of a class name whose utility segment is the important mark in front (unless
/// `to_end`), at most a `-`, a base, and the important mark at the end (when `to_end`).
proof fn lemma_moved_layout(t: Seq<char>, l: int, mp: Seq<char>, b: Seq<char>, to_end: bool)
    requires
        utility_start(t) == l,
        0 <= l <= t.len(),
        t.subrange(l, t.len() as int) == (if to_end { Seq::empty() } else { seq!['!'] }) + mp + b
            + (if to_end { seq!['!'] } else { Seq::empty() }),
        mp =~= Seq::<char>::empty() || mp =~= seq!['-'],
        b.len() > 0,
        b[0] != '!',
        b[0] != '-',
        b.last() != '!',
    ensures
        candidate_layout(t).segment_start == l,
        t.subrange(candidate_layout(t).base_start, candidate_layout(t).base_end) == b,
        candidate_layout(t).important_at_end == to_end,
        candidate_layout(t).important_at_start == !to_end,
{
    let lt = candidate_layout(t);
    let tt = t.subrange(l, t.len() as int);
    if to_end {
        assert(tt.last() == '!');
        assert(tt.drop_last() =~= mp + b);
        if mp.len() > 0 {
            assert((mp + b)[1] == b[0]);
        } else {
            assert((mp + b)[0] == b[0]);
        }
    } else {
        assert(tt.last() == b.last());
        assert(tt =~= seq!['!'] + mp + b);
        if mp.len() > 0 {
            assert(tt[1] == '-');
        } else {
            assert(tt[1] == b[0]);
        }
    }
    let w = if to_end { tt.drop_last() } else { tt };
    let marks = mp.len() + (if to_end { 0int } else { 1int });
    assert(base_marks(w).0 == marks);
    assert(w =~= (if to_end { Seq::empty() } else { seq!['!'] }) + mp + b);
    assert(w.subrange(marks, w.len() as int) =~= b);
    assert(lt.base_start == l + marks);
    assert(lt.base_end == l + w.len());
    assert(t.subrange(l + marks, l + w.len()) =~= w.subrange(marks, w.len() as int));
}

/// The class name that `move_important` builds from the parts of a class name.
pub open spec fn moved_important(c: TailwindCandidate, to_end: bool) -> Seq<char> {
    c.variant_prefix@ + (if to_end { Seq::empty() } else { seq!['!'] })
        + without_char(c.before_base@.subrange(c.variant_prefix@.len() as int, c.before_base@.len() as int), '!')
        + c.base@ + (if to_end { seq!['!'] } else { Seq::empty() })
}

/// Moving the important mark keeps the class: the class name that `move_important` builds has
/// the same variants and base, with its important mark at the end (`to_end`) or at the start.
/// This holds when the base is not empty, neither starts with `!` or `-` nor ends with `!`, and
/// the marks before it are not two `-` (after a `!` in front, `!--` reads as a base with a `-`).
#[verifier::spinoff_prover]
#[verifier::rlimit(50)]
pub proof fn moving_important_keeps_the_class(s: Seq<char>, c: TailwindCandidate, to_end: bool)
    requires
        c.parts_of(s),
        c.base@.len() > 0,
        c.base@[0] != '!',
        c.base@[0] != '-',
        c.base@.last() != '!',
        c.before_base@.subrange(c.variant_prefix@.len() as int, c.before_base@.len() as int) != seq!['-', '-'],
    ensures
        candidate_layout(moved_important(c, to_end)).segment_start == c.variant_prefix@.len(),
        moved_important(c, to_end).subrange(0, c.variant_prefix@.len() as int) == c.variant_prefix@,
        moved_important(c, to_end).subrange(
            candidate_layout(moved_important(c, to_end)).base_start,
            candidate_layout(moved_important(c, to_end)).base_end,
        ) == c.base@,
        candidate_layout(moved_important(c, to_end)).important_at_end == to_end,
        candidate_layout(moved_important(c, to_end)).important_at_start == !to_end,
{
    lemma_candidate_segment(s, c);
    let l = candidate_layout(s).segment_start;
    let p = c.variant_prefix@;
    let b = c.base@;
    let m = c.before_base@.subrange(p.len() as int, c.before_base@.len() as int);
    let e = c.after_base@;
    lemma_without_marks(m);
    let mp = without_char(m, '!');
    let x: Seq<char> = if to_end { Seq::empty() } else { seq!['!'] };
    let y: Seq<char> = if to_end { seq!['!'] } else { Seq::empty() };
    let t = moved_important(c, to_end);
    let tt = x + mp + b + y;
    assert(t =~= p + tt);
    assert(p =~= s.subrange(0, l));
    // The segments of both scan as their bases do.
    assert forall|k: int| 0 <= k < m.len() implies scan_neutral(#[trigger] m[k]) by {}
    assert forall|k: int| 0 <= k < e.len() implies scan_neutral(#[trigger] e[k]) by {}
    lemma_segment_scan(m, b, e);
    let xm = x + mp;
    assert forall|k: int| 0 <= k < xm.len() implies scan_neutral(#[trigger] xm[k]) by {}
    assert forall|k: int| 0 <= k < y.len() implies scan_neutral(#[trigger] y[k]) by {}
    lemma_segment_scan(xm, b, y);
    assert(xm + b + y =~= tt);
    assert(s.subrange(l, s.len() as int) =~= m + b + e);
    assert(t.subrange(l, t.len() as int) =~= tt);
    assert(t.subrange(0, l) =~= s.subrange(0, l));
    lemma_same_utility_start(s, t, l);
    lemma_moved_layout(t, l, mp, b, to_end);
}

/// Replacing the base of a parsed class name with that same base gives back the class name.
pub proof fn replace_base_roundtrip(class_name: Seq<char>, c: TailwindCandidate)
    requires
        c.parts_of(class_name),
    ensures
        c.before_base@ + c.base@ + c.after_base@ == class_name,
{
    lemma_layout_bounds(class_name);
    let layout = candidate_layout(class_name);
    assert(class_name.subrange(0, layout.base_start) + class_name.subrange(layout.base_start, layout.base_end)
        + class_name.subrange(layout.base_end, class_name.len() as int) =~= class_name);
}

pub proof fn lemma_layout_bounds(s: Seq<char>)
    ensures
        0 <= candidate_layout(s).segment_start <= candidate_layout(s).base_start
            <= candidate_layout(s).base_end <= s.len(),
{
    lemma_top_level_colons_bounds(s, 0, 0, 0, false);
}

/// Split top-level variants from the utility segment.
pub fn tailwind_variants(class_name: &str) -> (r: (Vec<&str>, &str))
    ensures
        views(r.0@).push(r.1@) == pieces(class_name@, variant_colons(class_name@), 0),
{
    let chars = chars_of(class_name);
    let n = chars.len();
    let colons = find_variant_colons(&chars);
    let ghost s = class_name@;
    let ghost cuts = variant_colons(s);
    proof {
        lemma_top_level_colons_bounds(s, 0, 0, 0, false);
        lemma_pieces_join(s, cuts, 0, ':');
    }
    let mut variants: Vec<&str> = Vec::new();
    let mut start: usize = 0;
    let mut k: usize = 0;
    assert(cuts.subrange(0, cuts.len() as int) =~= cuts);
    assert(views(variants@) + pieces(s, cuts, 0) =~= pieces(s, cuts, 0));
    while k < colons.len()
        invariant
            n == s.len(),
            chars@ == s,
            s == class_name@,
            cuts == variant_colons(s),
            colons@.map_values(|p: usize| p as int) == cuts,
            forall|j: int| 0 <= j < cuts.len() ==> 0 <= #[trigger] cuts[j] < s.len(),
            forall|j: int, m: int| 0 <= j < m < cuts.len() ==> cuts[j] < cuts[m],
            k <= colons.len(),
            k == 0 ==> start == 0,
            k > 0 ==> start == cuts[k - 1] + 1,
            start <= n,
            pieces(s, cuts, 0) == views(variants@) + pieces(s, cuts.subrange(k as int, cuts.len() as int), start as int),
        decreases colons.len() - k,
    {
        let colon = colons[k];
        assert(colon as int == cuts[k as int]);
        proof {
            if k > 0 {
                assert(cuts[k - 1] < cuts[k as int]);
            }
        }
        let part = class_name.substring_char(start, colon);
        let ghost before = views(variants@);
        let ghost rest = cuts.subrange(k as int, cuts.len() as int);
        assert(rest.drop_first() =~= cuts.subrange(k + 1, cuts.len() as int));
        variants.push(part);
        assert(views(variants@) =~= before.push(part@));
        assert(pieces(s, rest, start as int) == seq![part@] + pieces(s, rest.drop_first(), colon + 1));
        assert(before + (seq![part@] + pieces(s, rest.drop_first(), colon + 1)) =~= views(variants@) + pieces(s, rest.drop_first(), colon + 1));
        start = colon + 1;
        k = k + 1;
    }
    let utility = class_name.substring_char(start, n);
    assert(cuts.subrange(k as int, cuts.len() as int) =~= Seq::<int>::empty());
    assert(views(variants@).push(utility@) =~= views(variants@) + seq![utility@]);
    (variants, utility)
}

/// Joining the variants and the utility of a class name with `:` gives back the class name.
pub proof fn variants_rejoin(class_name: Seq<char>)
    ensures
        join_with(pieces(class_name, variant_colons(class_name), 0), ':') == class_name,
{
    lemma_top_level_colons_bounds(class_name, 0, 0, 0, false);
    lemma_pieces_join(class_name, variant_colons(class_name), 0, ':');
    assert(class_name.subrange(0, class_name.len() as int) =~= class_name);
}

/// A single class name and its position, in characters, inside a class string: the form the
/// lint rules scan.
#[derive(Clone, Copy)]
pub struct ClassRun<'a> {
    pub name: &'a str,
    pub start: usize,
    pub end: usize,
    /// The class touches an interpolation at an edge that must be kept.
    pub sticky: bool,
}

/// The end of the run of characters from `i` on that are (`ws`) or are not whitespace.
pub open spec fn run_end(s: Seq<char>, i: int, ws: bool) -> int
    decreases s.len() - i,
{
    if i < 0 || i >= s.len() || is_ascii_whitespace(s[i]) != ws {
        i
    } else {
        run_end(s, i + 1, ws)
    }
}

pub proof fn lemma_run_end_bounds(s: Seq<char>, i: int, ws: bool)
    requires
        0 <= i <= s.len(),
    ensures
        i <= run_end(s, i, ws) <= s.len(),
        forall|k: int| i <= k < run_end(s, i, ws) ==> is_ascii_whitespace(#[trigger] s[k]) == ws,
        run_end(s, i, ws) < s.len() ==> is_ascii_whitespace(s[run_end(s, i, ws)]) != ws,
    decreases s.len() - i,
{
    if i < s.len() && is_ascii_whitespace(s[i]) == ws {
        lemma_run_end_bounds(s, i + 1, ws);
    }
}

/// The maximal runs of non-whitespace characters of `s` from `i` on, as start and end positions.
pub open spec fn class_spans(s: Seq<char>, i: int) -> Seq<(int, int)>
    decreases s.len() - i,
{
    if i < 0 || i >= s.len() {
        Seq::empty()
    } else {
        let start = run_end(s, i, true);
        let end = run_end(s, start, false);
        if start == end {
            Seq::empty()
        } else {
            proof {
                lemma_run_end_bounds(s, i, true);
                lemma_run_end_bounds(s, start, false);
            }
            seq![(start, end)] + class_spans(s, end)
        }
    }
}

/// Whether every character of `s` in `from..to` is ASCII whitespace.
pub open spec fn all_whitespace(s: Seq<char>, from: int, to: int) -> bool {
    forall|p: int| from <= p < to ==> is_ascii_whitespace(#[trigger] s[p])
}

/// Whether no character of `s` in `from..to` is ASCII whitespace.
pub open spec fn no_whitespace(s: Seq<char>, from: int, to: int) -> bool {
    forall|p: int| from <= p < to ==> !is_ascii_whitespace(#[trigger] s[p])
}

/// Whether `spans` split `s` from `i` on at ASCII whitespace: each span is a non-empty run
/// without whitespace, only whitespace stands between consecutive spans, before the first and
/// after the last (or everywhere, when there is no span).
pub open spec fn whitespace_split(s: Seq<char>, i: int, spans: Seq<(int, int)>) -> bool {
    &&& forall|k: int| 0 <= k < spans.len() ==> i <= (#[trigger] spans[k]).0 < spans[k].1 <= s.len()
    &&& forall|k: int| 0 <= k < spans.len() ==> no_whitespace(s, (#[trigger] spans[k]).0, spans[k].1)
    &&& forall|k: int| 0 <= k < spans.len() - 1 ==> (#[trigger] spans[k]).1 < spans[k + 1].0
        && all_whitespace(s, spans[k].1, spans[k + 1].0)
    &&& if spans.len() == 0 {
        all_whitespace(s, i, s.len() as int)
    } else {
        all_whitespace(s, i, spans[0].0) && all_whitespace(s, spans.last().1, s.len() as int)
    }
}

proof fn lemma_class_spans_split(s: Seq<char>, i: int)
    requires
        0 <= i <= s.len(),
    ensures
        whitespace_split(s, i, class_spans(s, i)),
    decreases s.len() - i,
{
    if i < s.len() {
        let start = run_end(s, i, true);
        lemma_run_end_bounds(s, i, true);
        let end = run_end(s, start, false);
        lemma_run_end_bounds(s, start, false);
        if start != end {
            lemma_class_spans_split(s, end);
            let rest = class_spans(s, end);
            let spans = class_spans(s, i);
            assert(spans == seq![(start, end)] + rest);
            if rest.len() > 0 {
                assert(end < s.len());
                assert(is_ascii_whitespace(s[end]));
                lemma_run_end_bounds(s, end, true);
                assert(rest[0].0 > end) by {
                    assert(all_whitespace(s, end, rest[0].0));
                    assert(!is_ascii_whitespace(s[rest[0].0]));
                }
            }
            assert forall|k: int| 0 <= k < spans.len() - 1 implies (#[trigger] spans[k]).1 < spans[k + 1].0
                && all_whitespace(s, spans[k].1, spans[k + 1].0) by {
                if k > 0 {
                    assert(spans[k] == rest[k - 1] && spans[k + 1] == rest[k]);
                }
            }
            assert forall|k: int| 0 <= k < spans.len() implies i <= (#[trigger] spans[k]).0 < spans[k].1 <= s.len()
                && no_whitespace(s, spans[k].0, spans[k].1) by {
                if k > 0 {
                    assert(spans[k] == rest[k - 1]);
                }
            }
            if rest.len() > 0 {
                assert(spans.last() == rest.last());
            }
        } else if start < s.len() {
            assert(!is_ascii_whitespace(s[start]));
            assert(run_end(s, start, false) == run_end(s, start + 1, false));
            lemma_run_end_bounds(s, start + 1, false);
        }
    }
}

/// The classes of a class string are its ASCII-whitespace split (`str::split_ascii_whitespace`):
/// each is a non-empty run without whitespace, and only whitespace stands between them, before
/// the first and after the last.
pub proof fn class_spans_split_at_whitespace(s: Seq<char>)
    ensures
        whitespace_split(s, 0, class_spans(s, 0)),
{
    lemma_class_spans_split(s, 0);
}

/// Whether `class` is the class of `content` at `span`, with its stickiness decided by the
/// edges that must be kept.
pub open spec fn is_class_at(class: ClassRun, content: Seq<char>, span: (int, int), keep_leading: bool, keep_trailing: bool) -> bool {
    &&& class.start == span.0
    &&& class.end == span.1
    &&& class.name@ == content.subrange(span.0, span.1)
    &&& class.sticky == ((keep_leading && span.0 == 0) || (keep_trailing && span.1 == content.len()))
}

/// The whitespace-separated classes of a class string. A class at an edge that touches an
/// interpolation (`keep_leading`, `keep_trailing`) is sticky: it must stay where it is.
pub fn class_runs(content: &str, keep_leading: bool, keep_trailing: bool) -> (classes: Vec<ClassRun>)
    ensures
        classes@.len() == class_spans(content@, 0).len(),
        forall|k: int| 0 <= k < classes@.len() ==> is_class_at(#[trigger] classes@[k], content@, class_spans(content@, 0)[k], keep_leading, keep_trailing),
{
    let chars = chars_of(content);
    let n = chars.len();
    let ghost s = content@;
    let mut classes: Vec<ClassRun> = Vec::new();
    let mut index: usize = 0;
    while index < n
        invariant
            n == s.len(),
            chars@ == s,
            s == content@,
            index <= n,
            classes@.len() + class_spans(s, index as int).len() == class_spans(s, 0).len(),
            forall|k: int| 0 <= k < classes@.len() ==> is_class_at(#[trigger] classes@[k], s, class_spans(s, 0)[k], keep_leading, keep_trailing),
            forall|k: int| 0 <= k < class_spans(s, index as int).len() ==>
                class_spans(s, 0)[classes@.len() + k] == #[trigger] class_spans(s, index as int)[k],
        decreases n - index,
    {
        let ghost spans_here = class_spans(s, index as int);
        let mut start = index;
        while start < n && char_is_ascii_whitespace(chars[start])
            invariant
                n == s.len(),
                chars@ == s,
                index <= start <= n,
                run_end(s, index as int, true) == run_end(s, start as int, true),
            decreases n - start,
        {
            start = start + 1;
        }
        let mut end = start;
        while end < n && !char_is_ascii_whitespace(chars[end])
            invariant
                n == s.len(),
                chars@ == s,
                start <= end <= n,
                run_end(s, start as int, false) == run_end(s, end as int, false),
            decreases n - end,
        {
            end = end + 1;
        }
        if start == end {
            assert(spans_here =~= Seq::<(int, int)>::empty());
            index = n;
        } else {
            let class = ClassRun {
                name: content.substring_char(start, end),
                start,
                end,
                sticky: (keep_leading && start == 0) || (keep_trailing && end == n),
            };
            let ghost old_len = classes@.len();
            assert(spans_here == seq![(start as int, end as int)] + class_spans(s, end as int));
            assert(class_spans(s, 0)[old_len as int] == spans_here[0]);
            classes.push(class);
            assert forall|k: int| 0 <= k < class_spans(s, end as int).len() implies
                class_spans(s, 0)[classes@.len() + k] == #[trigger] class_spans(s, end as int)[k] by {
                assert(class_spans(s, end as int)[k] == spans_here[k + 1]);
                assert(class_spans(s, 0)[old_len + (k + 1)] == spans_here[k + 1]);
            }
            index = end;
        }
    }
    classes
}

/// A single class name of a Tailwind literal: its text, its source span (the literal's start
/// plus its offsets), its byte offsets inside the class string, and whether it is sticky.
#[derive(Clone, Copy)]
pub struct TailwindClass<'a> {
    pub name: &'a str,
    pub span: SourceSpan,
    pub start: usize,
    pub end: usize,
    /// The class touches an interpolation at an edge that must be kept.
    pub sticky: bool,
}

/// Whether `class` is the class of `content` at the characters `span` of the literal.
pub open spec fn is_tailwind_class(class: TailwindClass, literal: TailwindLiteral, content: Seq<char>, span: (int, int)) -> bool {
    &&& class.name@ == content.subrange(span.0, span.1)
    &&& class.start == byte_offset(content, span.0)
    &&& class.end == byte_offset(content, span.1)
    &&& class.span.start == literal.span.start + class.start
    &&& class.span.end == literal.span.start + class.end
    &&& class.sticky == ((literal.keep_leading && span.0 == 0) || (literal.keep_trailing && span.1 == content.len()))
}

/// The whitespace-separated classes of a Tailwind literal whose class string is `content`, with
/// byte offsets into it and source spans. A class at an edge that touches an interpolation is
/// sticky. The spans must fit in a `u32`, as source offsets do.
pub fn tailwind_classes<'a>(literal: &TailwindLiteral, content: &'a str) -> (classes: Vec<TailwindClass<'a>>)
    requires
        literal.span.start + encode_utf8(content@).len() <= u32::MAX,
    ensures
        classes@.len() == class_spans(content@, 0).len(),
        forall|k: int| 0 <= k < classes@.len()
            ==> is_tailwind_class(#[trigger] classes@[k], *literal, content@, class_spans(content@, 0)[k]),
        forall|k: int| 0 <= k < classes@.len()
            ==> encode_utf8(content@).subrange((#[trigger] classes@[k]).start as int, classes@[k].end as int) == encode_utf8(classes@[k].name@),
{
    let runs = class_runs(content, literal.keep_leading, literal.keep_trailing);
    let ghost s = content@;
    let ghost spans = class_spans(s, 0);
    proof {
        lemma_class_spans_split(s, 0);
    }
    let mut classes: Vec<TailwindClass> = Vec::new();
    let mut k: usize = 0;
    while k < runs.len()
        invariant
            s == content@,
            spans == class_spans(s, 0),
            whitespace_split(s, 0, spans),
            literal.span.start + encode_utf8(s).len() <= u32::MAX,
            runs@.len() == spans.len(),
            forall|m: int| 0 <= m < runs@.len() ==> is_class_at(#[trigger] runs@[m], s, spans[m], literal.keep_leading, literal.keep_trailing),
            k <= runs@.len(),
            classes@.len() == k,
            forall|m: int| 0 <= m < k ==> is_tailwind_class(#[trigger] classes@[m], *literal, s, spans[m]),
            forall|m: int| 0 <= m < k
                ==> encode_utf8(s).subrange((#[trigger] classes@[m]).start as int, classes@[m].end as int) == encode_utf8(classes@[m].name@),
        decreases runs.len() - k,
    {
        let run = runs[k];
        assert(is_class_at(runs@[k as int], s, spans[k as int], literal.keep_leading, literal.keep_trailing));
        assert(0 <= spans[k as int].0 < spans[k as int].1 <= s.len());
        proof {
            lemma_byte_offset_bounds(s, spans[k as int].0, spans[k as int].1);
            lemma_byte_slice(s, spans[k as int].0, spans[k as int].1);
        }
        let start = byte_offset_of(content, run.start);
        let end = byte_offset_of(content, run.end);
        let class = TailwindClass {
            name: run.name,
            span: SourceSpan { start: literal.span.start + start as u32, end: literal.span.start + end as u32 },
            start,
            end,
            sticky: run.sticky,
        };
        classes.push(class);
        k = k + 1;
    }
    classes
}

} // verus!
