//! Duplicate classes in a class string, and the text to remove for each.

use vstd::prelude::*;
use vstd::utf8::encode_utf8;
use crate::classes::{ClassRun, class_spans, is_class_at, class_runs, run_end, lemma_run_end_bounds};
use crate::lint::TailwindLiteral;
use crate::text::{byte_offset, byte_offset_of, lemma_byte_offset_bounds, chars_of, char_is_ascii_whitespace, is_ascii_whitespace, str_eq, views};

verus! {

/// The start of the run of ASCII whitespace that ends at `end`.
pub open spec fn ws_back(s: Seq<char>, end: int) -> int
    decreases end,
{
    if end <= 0 || end > s.len() || !is_ascii_whitespace(s[end - 1]) {
        end
    } else {
        ws_back(s, end - 1)
    }
}

pub proof fn lemma_ws_back_bounds(s: Seq<char>, end: int)
    requires
        0 <= end <= s.len(),
    ensures
        0 <= ws_back(s, end) <= end,
    decreases end,
{
    if end > 0 && is_ascii_whitespace(s[end - 1]) {
        lemma_ws_back_bounds(s, end - 1);
    }
}

/// The name of the class at `spans[k]`.
pub open spec fn name_at(s: Seq<char>, spans: Seq<(int, int)>, k: int) -> Seq<char> {
    s.subrange(spans[k].0, spans[k].1)
}

/// Whether the class at `spans[k]` touches an edge that must be kept.
pub open spec fn sticky_at(s: Seq<char>, spans: Seq<(int, int)>, k: int, lead: bool, trail: bool) -> bool {
    (lead && spans[k].0 == 0) || (trail && spans[k].1 == s.len())
}

/// The last index of the run of classes from `i` on that have the name of the class at `i`.
pub open spec fn same_run_end(s: Seq<char>, spans: Seq<(int, int)>, i: int) -> int
    decreases spans.len() - i,
{
    if 0 <= i && i + 1 < spans.len() && name_at(s, spans, i + 1) == name_at(s, spans, i) {
        same_run_end(s, spans, i + 1)
    } else {
        i
    }
}

pub proof fn lemma_same_run_end(s: Seq<char>, spans: Seq<(int, int)>, i: int)
    requires
        0 <= i < spans.len(),
    ensures
        i <= same_run_end(s, spans, i) < spans.len(),
        forall|k: int| i <= k <= same_run_end(s, spans, i) ==> name_at(s, spans, k) == name_at(s, spans, i),
    decreases spans.len() - i,
{
    if i + 1 < spans.len() && name_at(s, spans, i + 1) == name_at(s, spans, i) {
        lemma_same_run_end(s, spans, i + 1);
    }
}

/// A duplicate class: where it is, and the text the fix removes (the class, the whitespace
/// before it and the repeats that directly follow it). Offsets count bytes of the class
/// string.
#[derive(Clone, Copy, PartialEq, Eq, Structural)]
pub struct DuplicateClass {
    pub start: usize,
    pub end: usize,
    pub removal_start: usize,
    pub removal_end: usize,
}

/// The duplicates among the classes `spans` from index `i` on, the names in `seen` having been
/// met before. A sticky class is never reported; a run of repeats is reported once.
pub open spec fn duplicates_from(s: Seq<char>, spans: Seq<(int, int)>, lead: bool, trail: bool, i: int, seen: Seq<Seq<char>>) -> Seq<(int, int, int, int)>
    decreases spans.len() - i,
{
    if i < 0 || i >= spans.len() {
        Seq::empty()
    } else if seen.contains(name_at(s, spans, i)) && !sticky_at(s, spans, i, lead, trail) {
        let j = same_run_end(s, spans, i);
        proof {
            lemma_same_run_end(s, spans, i);
        }
        seq![(byte_offset(s, spans[i].0), byte_offset(s, spans[i].1), byte_offset(s, ws_back(s, spans[i].0)), byte_offset(s, spans[j].1))] + duplicates_from(s, spans, lead, trail, j + 1, seen)
    } else {
        duplicates_from(s, spans, lead, trail, i + 1, seen.push(name_at(s, spans, i)))
    }
}

/// The duplicate classes of a class string: none when it holds no whitespace.
pub open spec fn spec_duplicates(s: Seq<char>, lead: bool, trail: bool) -> Seq<(int, int, int, int)> {
    if forall|k: int| 0 <= k < s.len() ==> !is_ascii_whitespace(#[trigger] s[k]) {
        Seq::empty()
    } else {
        duplicates_from(s, class_spans(s, 0), lead, trail, 0, Seq::empty())
    }
}

/// Whether `r` is a report among `reports` whose removal range, in bytes, covers the
/// characters `from..to` of `s`.
pub open spec fn removal_covers(reports: Seq<(int, int, int, int)>, s: Seq<char>, from: int, to: int) -> bool {
    exists|k: int| 0 <= k < reports.len() && (#[trigger] reports[k]).2 <= byte_offset(s, from) && byte_offset(s, to) <= reports[k].3
}

proof fn lemma_duplicates_cover(s: Seq<char>, spans: Seq<(int, int)>, lead: bool, trail: bool, i: int, seen: Seq<Seq<char>>, c: int)
    requires
        encode_utf8(s).len() <= usize::MAX,
        forall|k: int| 0 <= k < spans.len() ==> 0 <= (#[trigger] spans[k]).0 < spans[k].1 <= s.len(),
        forall|k: int| 0 < k < spans.len() ==> spans[k - 1].1 <= (#[trigger] spans[k]).0,
        0 <= i <= c < spans.len(),
        !((lead && spans[c].0 == 0) || (trail && spans[c].1 == s.len())),
        seen.contains(s.subrange(spans[c].0, spans[c].1))
            || exists|m: int| i <= m < c && #[trigger] s.subrange(spans[m].0, spans[m].1) == s.subrange(spans[c].0, spans[c].1),
    ensures
        removal_covers(duplicates_from(s, spans, lead, trail, i, seen), s, spans[c].0, spans[c].1),
    decreases spans.len() - i,
{
    let name = s.subrange(spans[c].0, spans[c].1);
    let out = duplicates_from(s, spans, lead, trail, i, seen);
    if seen.contains(name_at(s, spans, i)) && !sticky_at(s, spans, i, lead, trail) {
        let j = same_run_end(s, spans, i);
        lemma_same_run_end(s, spans, i);
        lemma_ws_back_bounds(s, spans[i].0);
        let rest = duplicates_from(s, spans, lead, trail, j + 1, seen);
        assert(out == seq![(byte_offset(s, spans[i].0), byte_offset(s, spans[i].1), byte_offset(s, ws_back(s, spans[i].0)), byte_offset(s, spans[j].1))] + rest);
        if c <= j {
            assert(spans_increase(spans, i, c)) by { lemma_spans_increase(spans, i, c); }
            assert(spans_increase(spans, c, j)) by { lemma_spans_increase(spans, c, j); }
            lemma_byte_offset_bounds(s, ws_back(s, spans[i].0), spans[c].0);
            lemma_byte_offset_bounds(s, spans[c].1, spans[j].1);
            assert(out[0].2 <= byte_offset(s, spans[c].0) && byte_offset(s, spans[c].1) <= out[0].3);
        } else {
            if !seen.contains(name) {
                let m = choose|m: int| i <= m < c && #[trigger] s.subrange(spans[m].0, spans[m].1) == name;
                if m <= j {
                    assert(name_at(s, spans, m) == name_at(s, spans, i));
                } else {
                    assert(j + 1 <= m < c && s.subrange(spans[m].0, spans[m].1) == name);
                }
            }
            lemma_duplicates_cover(s, spans, lead, trail, j + 1, seen, c);
            let k = choose|k: int| 0 <= k < rest.len() && (#[trigger] rest[k]).2 <= byte_offset(s, spans[c].0) && byte_offset(s, spans[c].1) <= rest[k].3;
            assert(out[k + 1] == rest[k]);
        }
    } else {
        let pushed = seen.push(name_at(s, spans, i));
        if c == i {
            assert(seen.contains(name));
        } else {
            if !seen.contains(name) {
                let m = choose|m: int| i <= m < c && #[trigger] s.subrange(spans[m].0, spans[m].1) == name;
                if m == i {
                    assert(pushed[seen.len() as int] == name);
                } else {
                    assert(i + 1 <= m < c && s.subrange(spans[m].0, spans[m].1) == name);
                }
            } else {
                let q = choose|q: int| 0 <= q < seen.len() && seen[q] == name;
                assert(pushed[q] == name);
            }
            lemma_duplicates_cover(s, spans, lead, trail, i + 1, pushed, c);
        }
    }
}

/// Whether the spans from `a` to `b` start and end in order.
pub open spec fn spans_increase(spans: Seq<(int, int)>, a: int, b: int) -> bool {
    spans[a].0 <= spans[b].0 && spans[a].1 <= spans[b].1
}

proof fn lemma_spans_increase(spans: Seq<(int, int)>, a: int, b: int)
    requires
        0 <= a <= b < spans.len(),
        forall|k: int| 0 <= k < spans.len() ==> 0 <= (#[trigger] spans[k]).0 < spans[k].1,
        forall|k: int| 0 < k < spans.len() ==> spans[k - 1].1 <= (#[trigger] spans[k]).0,
    ensures
        spans_increase(spans, a, b),
    decreases b - a,
{
    if a < b {
        lemma_spans_increase(spans, a, b - 1);
        assert(spans[b - 1].1 <= spans[b].0);
    }
}

/// Every repeat is removed: a class that is not sticky and whose name occurs earlier in the
/// class string, however far before it, lies inside the removal range of a reported duplicate.
#[verifier::spinoff_prover]
#[verifier::rlimit(50)]
pub proof fn repeated_classes_are_removed(s: Seq<char>, lead: bool, trail: bool, earlier: int, later: int)
    requires
        encode_utf8(s).len() <= usize::MAX,
        0 <= earlier < later < class_spans(s, 0).len(),
        s.subrange(class_spans(s, 0)[earlier].0, class_spans(s, 0)[earlier].1)
            == s.subrange(class_spans(s, 0)[later].0, class_spans(s, 0)[later].1),
        !((lead && class_spans(s, 0)[later].0 == 0) || (trail && class_spans(s, 0)[later].1 == s.len())),
    ensures
        removal_covers(spec_duplicates(s, lead, trail), s, class_spans(s, 0)[later].0, class_spans(s, 0)[later].1),
{
    let spans = class_spans(s, 0);
    lemma_spans_in_bounds(s, 0);
    crate::classes::class_spans_split_at_whitespace(s);
    assert(spans[earlier].1 < spans[earlier + 1].0);
    assert(is_ascii_whitespace(s[spans[earlier].1]));
    assert(!forall|k: int| 0 <= k < s.len() ==> !is_ascii_whitespace(#[trigger] s[k]));
    assert forall|k: int| 0 < k < spans.len() implies spans[k - 1].1 <= (#[trigger] spans[k]).0 by {
        assert(spans[k - 1].1 < spans[(k - 1) + 1].0);
    }
    lemma_duplicates_cover(s, spans, lead, trail, 0, Seq::empty(), later);
}

proof fn lemma_ws_back_run(s: Seq<char>, end: int)
    requires
        0 <= end <= s.len(),
    ensures
        forall|p: int| ws_back(s, end) <= p < end ==> is_ascii_whitespace(#[trigger] s[p]),
        ws_back(s, end) == 0 || !is_ascii_whitespace(s[ws_back(s, end) - 1]),
    decreases end,
{
    if end > 0 && is_ascii_whitespace(s[end - 1]) {
        lemma_ws_back_run(s, end - 1);
    }
}

/// Whether `r` reports the class `k` of `spans` as a repeat of the earlier class `m`: the
/// class is not sticky, and the removal runs from `a` (after the previous class, with only
/// whitespace up to class `k`) to the end of class `j`, every class from `k` to `j` having the
/// same name. Positions in `r` are byte offsets.
pub open spec fn reports_repeat(s: Seq<char>, spans: Seq<(int, int)>, lead: bool, trail: bool, r: (int, int, int, int), m: int, k: int, j: int, a: int) -> bool {
    &&& 0 <= m < k <= j < spans.len()
    &&& s.subrange(spans[m].0, spans[m].1) == s.subrange(spans[k].0, spans[k].1)
    &&& !((lead && spans[k].0 == 0) || (trail && spans[k].1 == s.len()))
    &&& forall|q: int| k <= q <= j ==> #[trigger] s.subrange(spans[q].0, spans[q].1) == s.subrange(spans[k].0, spans[k].1)
    &&& spans[k - 1].1 <= a <= spans[k].0
    &&& forall|p: int| a <= p < spans[k].0 ==> is_ascii_whitespace(#[trigger] s[p])
    &&& r == (byte_offset(s, spans[k].0), byte_offset(s, spans[k].1), byte_offset(s, a), byte_offset(s, spans[j].1))
}

/// Whether `r` reports some class of `spans` as a repeat.
pub open spec fn is_repeat_report(s: Seq<char>, spans: Seq<(int, int)>, lead: bool, trail: bool, r: (int, int, int, int)) -> bool {
    exists|m: int, k: int, j: int, a: int| #[trigger] reports_repeat(s, spans, lead, trail, r, m, k, j, a)
}

/// Whether every name in `seen` is that of a class before `i`.
pub open spec fn seen_before(s: Seq<char>, spans: Seq<(int, int)>, seen: Seq<Seq<char>>, i: int) -> bool {
    forall|x: Seq<char>| #[trigger] seen.contains(x) ==> exists|m: int| 0 <= m < i && #[trigger] name_at(s, spans, m) == x
}

#[verifier::spinoff_prover]
proof fn lemma_head_report(s: Seq<char>, spans: Seq<(int, int)>, lead: bool, trail: bool, i: int, seen: Seq<Seq<char>>)
    requires
        forall|k: int| 0 <= k < spans.len() ==> 0 <= (#[trigger] spans[k]).0 < spans[k].1 <= s.len(),
        forall|k: int| 0 <= k < spans.len() ==> crate::classes::no_whitespace(s, (#[trigger] spans[k]).0, spans[k].1),
        forall|k: int| 0 < k < spans.len() ==> spans[k - 1].1 <= (#[trigger] spans[k]).0,
        0 <= i < spans.len(),
        seen_before(s, spans, seen, i),
        seen.contains(name_at(s, spans, i)),
        !sticky_at(s, spans, i, lead, trail),
    ensures
        is_repeat_report(s, spans, lead, trail, (byte_offset(s, spans[i].0), byte_offset(s, spans[i].1),
            byte_offset(s, ws_back(s, spans[i].0)), byte_offset(s, spans[same_run_end(s, spans, i)].1))),
{
    let j = same_run_end(s, spans, i);
    lemma_same_run_end(s, spans, i);
    lemma_ws_back_bounds(s, spans[i].0);
    lemma_ws_back_run(s, spans[i].0);
    let m = choose|m: int| 0 <= m < i && #[trigger] name_at(s, spans, m) == name_at(s, spans, i);
    let a = ws_back(s, spans[i].0);
    assert(spans[i - 1].1 <= a) by {
        if a < spans[i - 1].1 {
            let p = spans[i - 1].1 - 1;
            assert(crate::classes::no_whitespace(s, spans[i - 1].0, spans[i - 1].1));
            assert(!is_ascii_whitespace(s[p]));
        }
    }
    assert forall|q: int| i <= q <= j implies #[trigger] s.subrange(spans[q].0, spans[q].1) == s.subrange(spans[i].0, spans[i].1) by {
        assert(name_at(s, spans, q) == name_at(s, spans, i));
    }
    assert(reports_repeat(s, spans, lead, trail, (byte_offset(s, spans[i].0), byte_offset(s, spans[i].1),
        byte_offset(s, a), byte_offset(s, spans[j].1)), m, i, j, a));
}

#[verifier::spinoff_prover]
proof fn lemma_duplicates_sound(s: Seq<char>, spans: Seq<(int, int)>, lead: bool, trail: bool, i: int, seen: Seq<Seq<char>>)
    requires
        forall|k: int| 0 <= k < spans.len() ==> 0 <= (#[trigger] spans[k]).0 < spans[k].1 <= s.len(),
        forall|k: int| 0 <= k < spans.len() ==> crate::classes::no_whitespace(s, (#[trigger] spans[k]).0, spans[k].1),
        forall|k: int| 0 < k < spans.len() ==> spans[k - 1].1 <= (#[trigger] spans[k]).0,
        0 <= i <= spans.len(),
        seen_before(s, spans, seen, i),
    ensures
        forall|q: int| 0 <= q < duplicates_from(s, spans, lead, trail, i, seen).len()
            ==> #[trigger] is_repeat_report(s, spans, lead, trail, duplicates_from(s, spans, lead, trail, i, seen)[q]),
    decreases spans.len() - i,
{
    let out = duplicates_from(s, spans, lead, trail, i, seen);
    if i < spans.len() {
        if seen.contains(name_at(s, spans, i)) && !sticky_at(s, spans, i, lead, trail) {
            let j = same_run_end(s, spans, i);
            lemma_same_run_end(s, spans, i);
            lemma_head_report(s, spans, lead, trail, i, seen);
            let rest = duplicates_from(s, spans, lead, trail, j + 1, seen);
            assert(seen_before(s, spans, seen, j + 1)) by {
                assert forall|x: Seq<char>| #[trigger] seen.contains(x) implies exists|m: int| 0 <= m < j + 1 && #[trigger] name_at(s, spans, m) == x by {
                    let m2 = choose|m2: int| 0 <= m2 < i && #[trigger] name_at(s, spans, m2) == x;
                }
            }
            lemma_duplicates_sound(s, spans, lead, trail, j + 1, seen);
            assert(out == seq![(byte_offset(s, spans[i].0), byte_offset(s, spans[i].1),
                byte_offset(s, ws_back(s, spans[i].0)), byte_offset(s, spans[j].1))] + rest);
            assert forall|q: int| 0 <= q < out.len() implies #[trigger] is_repeat_report(s, spans, lead, trail, out[q]) by {
                if q > 0 {
                    assert(out[q] == rest[q - 1]);
                }
            }
        } else {
            let pushed = seen.push(name_at(s, spans, i));
            assert(seen_before(s, spans, pushed, i + 1)) by {
                assert forall|x: Seq<char>| #[trigger] pushed.contains(x) implies exists|m: int| 0 <= m < i + 1 && #[trigger] name_at(s, spans, m) == x by {
                    let q = choose|q: int| 0 <= q < pushed.len() && pushed[q] == x;
                    if q < seen.len() {
                        assert(seen[q] == x);
                        assert(seen.contains(x));
                        let m2 = choose|m2: int| 0 <= m2 < i && #[trigger] name_at(s, spans, m2) == x;
                    } else {
                        assert(name_at(s, spans, i) == x);
                    }
                }
            }
            lemma_duplicates_sound(s, spans, lead, trail, i + 1, pushed);
            assert(out == duplicates_from(s, spans, lead, trail, i + 1, pushed));
        }
    }
}

/// Every reported duplicate is a repeat: a class that is not sticky and whose name occurs
/// earlier, and the fix removes it, the whitespace before it back to the previous class at the
/// furthest, and only classes with the same name after it.
pub proof fn reported_duplicates_are_repeats(s: Seq<char>, lead: bool, trail: bool)
    ensures
        forall|q: int| 0 <= q < spec_duplicates(s, lead, trail).len()
            ==> #[trigger] is_repeat_report(s, class_spans(s, 0), lead, trail, spec_duplicates(s, lead, trail)[q]),
{
    let spans = class_spans(s, 0);
    lemma_spans_in_bounds(s, 0);
    crate::classes::class_spans_split_at_whitespace(s);
    assert forall|k: int| 0 < k < spans.len() implies spans[k - 1].1 <= (#[trigger] spans[k]).0 by {
        assert(spans[k - 1].1 < spans[(k - 1) + 1].0);
    }
    lemma_duplicates_sound(s, spans, lead, trail, 0, Seq::empty());
}

pub open spec fn duplicate_view(d: DuplicateClass) -> (int, int, int, int) {
    (d.start as int, d.end as int, d.removal_start as int, d.removal_end as int)
}

/// Disallows duplicate classes in class strings.
#[derive(Clone, Copy)]
pub struct NoDuplicateClasses;

fn contains_name(seen: &Vec<&str>, name: &str) -> (r: bool)
    ensures
        r == views(seen@).contains(name@),
{
    let mut k: usize = 0;
    while k < seen.len()
        invariant
            k <= seen@.len(),
            forall|j: int| 0 <= j < k ==> views(seen@)[j] != name@,
        decreases seen.len() - k,
    {
        if str_eq(seen[k], name) {
            assert(views(seen@)[k as int] == name@);
            return true;
        }
        k = k + 1;
    }
    proof {
        if views(seen@).contains(name@) {
            let j = choose|j: int| 0 <= j < views(seen@).len() && views(seen@)[j] == name@;
        }
    }
    false
}

fn has_ascii_whitespace(chars: &Vec<char>) -> (r: bool)
    ensures
        r == exists|k: int| 0 <= k < chars@.len() && is_ascii_whitespace(#[trigger] chars@[k]),
{
    let mut k: usize = 0;
    while k < chars.len()
        invariant
            k <= chars@.len(),
            forall|j: int| 0 <= j < k ==> !is_ascii_whitespace(#[trigger] chars@[j]),
        decreases chars.len() - k,
    {
        if char_is_ascii_whitespace(chars[k]) {
            return true;
        }
        k = k + 1;
    }
    false
}

proof fn lemma_spans_in_bounds(s: Seq<char>, i: int)
    requires
        0 <= i <= s.len(),
    ensures
        forall|k: int| 0 <= k < class_spans(s, i).len() ==> i <= (#[trigger] class_spans(s, i)[k]).0 < class_spans(s, i)[k].1 <= s.len(),
    decreases s.len() - i,
{
    if i < s.len() {
        let start = run_end(s, i, true);
        lemma_run_end_bounds(s, i, true);
        let end = run_end(s, start, false);
        lemma_run_end_bounds(s, start, false);
        if start != end {
            lemma_spans_in_bounds(s, end);
            assert forall|k: int| 0 <= k < class_spans(s, i).len() implies i <= (#[trigger] class_spans(s, i)[k]).0 < class_spans(s, i)[k].1 <= s.len() by {
                if k > 0 {
                    assert(class_spans(s, i)[k] == class_spans(s, end)[k - 1]);
                }
            }
        }
    }
}

impl NoDuplicateClasses {
    /// The duplicate classes of the class string `content` of `literal`, in order. A class that
    /// was seen before is reported unless it is sticky; the fix removes it with the whitespace
    /// before it and the repeats right after it, so that `flex flex flex` becomes `flex` in
    /// one edit.
    pub fn check(&self, literal: &TailwindLiteral, content: &str) -> (r: Vec<DuplicateClass>)
        ensures
            r@.map_values(|d: DuplicateClass| duplicate_view(d)) == spec_duplicates(content@, literal.keep_leading, literal.keep_trailing),
    {
        let chars = chars_of(content);
        let ghost s = content@;
        let lead = literal.keep_leading;
        let trail = literal.keep_trailing;
        let mut reports: Vec<DuplicateClass> = Vec::new();
        if !has_ascii_whitespace(&chars) {
            proof {
                assert forall|k: int| 0 <= k < s.len() implies !is_ascii_whitespace(#[trigger] s[k]) by {
                    assert(chars@[k] == s[k]);
                }
            }
            assert(reports@.map_values(|d: DuplicateClass| duplicate_view(d)) =~= Seq::<(int, int, int, int)>::empty());
            return reports;
        }
        let classes = class_runs(content, lead, trail);
        let ghost spans = class_spans(s, 0);
        proof {
            lemma_spans_in_bounds(s, 0);
        }
        let mut seen: Vec<&str> = Vec::new();
        proof {
            let k = choose|k: int| 0 <= k < chars@.len() && is_ascii_whitespace(#[trigger] chars@[k]);
            assert(is_ascii_whitespace(s[k]));
            assert(views(seen@) =~= Seq::<Seq<char>>::empty());
            assert(reports@.map_values(|d: DuplicateClass| duplicate_view(d)) =~= Seq::<(int, int, int, int)>::empty());
        }
        let mut index: usize = 0;
        while index < classes.len()
            invariant
                chars@ == s,
                s == content@,
                classes@.len() == spans.len(),
                forall|k: int| 0 <= k < classes@.len() ==> is_class_at(#[trigger] classes@[k], s, spans[k], lead, trail),
                forall|k: int| 0 <= k < spans.len() ==> 0 <= (#[trigger] spans[k]).0 < spans[k].1 <= s.len(),
                index <= classes@.len(),
                spec_duplicates(s, lead, trail) == reports@.map_values(|d: DuplicateClass| duplicate_view(d))
                    + duplicates_from(s, spans, lead, trail, index as int, views(seen@)),
            decreases classes.len() - index,
        {
            let class = classes[index];
            assert(is_class_at(classes@[index as int], s, spans[index as int], lead, trail));
            assert(class.name@ == name_at(s, spans, index as int));
            let ghost rest = duplicates_from(s, spans, lead, trail, index as int, views(seen@));
            if contains_name(&seen, class.name) && !class.sticky {
                let mut removal_start = class.start;
                while removal_start > 0 && char_is_ascii_whitespace(chars[removal_start - 1])
                    invariant
                        chars@ == s,
                        0 <= removal_start <= class.start <= s.len(),
                        ws_back(s, removal_start as int) == ws_back(s, class.start as int),
                    decreases removal_start,
                {
                    removal_start = removal_start - 1;
                }
                let ghost first = index as int;
                proof {
                    lemma_same_run_end(s, spans, first);
                }
                let mut removal_end = class.end;
                while index + 1 < classes.len() && str_eq(classes[index + 1].name, class.name)
                    invariant
                        classes@.len() == spans.len(),
                        forall|k: int| 0 <= k < classes@.len() ==> is_class_at(#[trigger] classes@[k], s, spans[k], lead, trail),
                        first <= index < classes@.len(),
                        class.name@ == name_at(s, spans, first),
                        name_at(s, spans, index as int) == name_at(s, spans, first),
                        same_run_end(s, spans, first) == same_run_end(s, spans, index as int),
                        removal_end == spans[index as int].1,
                    decreases classes.len() - index,
                {
                    assert(is_class_at(classes@[index + 1], s, spans[index + 1], lead, trail));
                    assert(name_at(s, spans, index + 1) == name_at(s, spans, index as int));
                    assert(same_run_end(s, spans, index as int) == same_run_end(s, spans, index + 1));
                    index = index + 1;
                    removal_end = classes[index].end;
                    assert(is_class_at(classes@[index as int], s, spans[index as int], lead, trail));
                }
                proof {
                    if index + 1 < classes@.len() {
                        assert(is_class_at(classes@[index + 1], s, spans[index + 1], lead, trail));
                    }
                    assert(same_run_end(s, spans, index as int) == index);
                }
                let report = DuplicateClass {
                    start: byte_offset_of(content, class.start),
                    end: byte_offset_of(content, class.end),
                    removal_start: byte_offset_of(content, removal_start),
                    removal_end: byte_offset_of(content, removal_end),
                };
                let ghost before = reports@.map_values(|d: DuplicateClass| duplicate_view(d));
                reports.push(report);
                assert(reports@.map_values(|d: DuplicateClass| duplicate_view(d)) =~= before.push(duplicate_view(report)));
                assert(rest == seq![duplicate_view(report)] + duplicates_from(s, spans, lead, trail, index + 1, views(seen@)));
                assert(before + rest =~= before.push(duplicate_view(report)) + duplicates_from(s, spans, lead, trail, index + 1, views(seen@)));
            } else {
                assert(class.sticky == sticky_at(s, spans, index as int, lead, trail));
                let ghost old_seen = views(seen@);
                assert(rest == duplicates_from(s, spans, lead, trail, index + 1, old_seen.push(name_at(s, spans, index as int))));
                seen.push(class.name);
                assert(views(seen@) =~= old_seen.push(class.name@));
            }
            index = index + 1;
        }
        assert(duplicates_from(s, spans, lead, trail, index as int, views(seen@)) =~= Seq::<(int, int, int, int)>::empty());
        assert(spec_duplicates(s, lead, trail) =~= reports@.map_values(|d: DuplicateClass| duplicate_view(d)));
        reports
    }
}

} // verus!
