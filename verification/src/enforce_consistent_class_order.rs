//! Consistent class order: the classes of a class string sorted alphabetically, or by the order
//! that the design system gives them, with the classes it does not know placed first or last.

use vstd::prelude::*;
use crate::classes::{ClassRun, class_spans, is_class_at, class_runs, run_end, lemma_run_end_bounds};
use crate::lint::TailwindLiteral;
use crate::text::{chars_of, push_str, str_eq, views};

verus! {

/// The order classes are sorted in.
#[derive(Clone, Copy, PartialEq, Eq, Structural)]
pub enum ClassOrder {
    Asc,
    Desc,
    Official,
    Strict,
}

/// How classes that the design system does not order are sorted among themselves.
#[derive(Clone, Copy, PartialEq, Eq, Structural)]
pub enum UnknownOrder {
    Asc,
    Desc,
    Preserve,
}

/// Where classes that the design system does not order go.
#[derive(Clone, Copy, PartialEq, Eq, Structural)]
pub enum UnknownPosition {
    Start,
    End,
}

/// Enforces a consistent class order.
#[derive(Clone, Copy)]
pub struct EnforceConsistentClassOrder {
    pub order: ClassOrder,
    pub unknown_class_order: UnknownOrder,
    pub unknown_class_position: UnknownPosition,
}

/// The reordered class string.
pub struct ClassOrderReport {
    pub replacement: String,
}

/// The order of two texts by their characters: -1, 0 or 1.
pub open spec fn lex_order(a: Seq<char>, b: Seq<char>) -> int
    decreases a.len(),
{
    if a.len() == 0 {
        if b.len() == 0 { 0 } else { -1 }
    } else if b.len() == 0 {
        1
    } else if (a[0] as u32) < (b[0] as u32) {
        -1
    } else if (a[0] as u32) > (b[0] as u32) {
        1
    } else {
        lex_order(a.drop_first(), b.drop_first())
    }
}

/// The value of a run of ASCII digits.
pub open spec fn digits_value(s: Seq<char>) -> int
    decreases s.len(),
{
    if s.len() == 0 {
        0
    } else {
        digits_value(s.drop_last()) * 10 + ((s.last() as u32) - ('0' as u32))
    }
}

pub open spec fn all_digits(s: Seq<char>) -> bool {
    forall|k: int| 0 <= k < s.len() ==> '0' <= #[trigger] s[k] <= '9'
}

/// A decimal `i128` as `str::parse` reads it: an optional sign, then one or more digits, the
/// value in range.
pub open spec fn parse_i128_spec(s: Seq<char>) -> Option<int> {
    let negative = s.len() > 0 && s[0] == '-';
    let digits = if s.len() > 0 && (s[0] == '-' || s[0] == '+') { s.drop_first() } else { s };
    if digits.len() == 0 || !all_digits(digits) {
        None
    } else {
        let v = if negative { -digits_value(digits) } else { digits_value(digits) };
        if i128::MIN <= v <= i128::MAX { Some(v) } else { None }
    }
}

/// The order the design system gave a class: that of its last entry, when its text is a number.
pub open spec fn class_order_of(entries: Seq<(Seq<char>, Option<Seq<char>>)>, name: Seq<char>) -> Option<int>
    decreases entries.len(),
{
    if entries.len() == 0 {
        None
    } else if entries.last().0 == name {
        match entries.last().1 {
            Some(text) => parse_i128_spec(text),
            None => None,
        }
    } else {
        class_order_of(entries.drop_last(), name)
    }
}

impl EnforceConsistentClassOrder {
    /// The default configuration: the official order, unknown classes first, in their order.
    pub fn new() -> (r: Self)
        ensures
            r.order == ClassOrder::Official,
            r.unknown_class_order == UnknownOrder::Preserve,
            r.unknown_class_position == UnknownPosition::Start,
    {
        EnforceConsistentClassOrder {
            order: ClassOrder::Official,
            unknown_class_order: UnknownOrder::Preserve,
            unknown_class_position: UnknownPosition::Start,
        }
    }

    /// How two classes, with the orders the design system gave them, compare: -1, 0 or 1.
    pub open spec fn compare(&self, left: (Seq<char>, Option<int>), right: (Seq<char>, Option<int>)) -> int {
        match self.order {
            ClassOrder::Asc => lex_order(left.0, right.0),
            ClassOrder::Desc => lex_order(right.0, left.0),
            _ => match (left.1, right.1) {
                (Some(l), Some(r)) => if l < r { -1 } else if l > r { 1 } else { 0 },
                (None, Some(_)) => if self.unknown_class_position == UnknownPosition::Start { -1 } else { 1 },
                (Some(_), None) => if self.unknown_class_position == UnknownPosition::Start { 1 } else { -1 },
                (None, None) => match self.unknown_class_order {
                    UnknownOrder::Asc => lex_order(left.0, right.0),
                    UnknownOrder::Desc => lex_order(right.0, left.0),
                    UnknownOrder::Preserve => 0,
                },
            },
        }
    }

    /// The index in `sorted` before which `x` is inserted: the first element greater than it.
    pub open spec fn insert_position(&self, sorted: Seq<(Seq<char>, Option<int>)>, x: (Seq<char>, Option<int>), i: int) -> int
        decreases sorted.len() - i,
    {
        if i < 0 || i >= sorted.len() {
            sorted.len() as int
        } else if self.compare(sorted[i], x) > 0 {
            i
        } else {
            self.insert_position(sorted, x, i + 1)
        }
    }

    /// The classes sorted stably: each inserted before the first greater one.
    pub open spec fn sort_classes(&self, items: Seq<(Seq<char>, Option<int>)>) -> Seq<(Seq<char>, Option<int>)>
        decreases items.len(),
    {
        if items.len() == 0 {
            Seq::empty()
        } else {
            let sorted = self.sort_classes(items.drop_last());
            let x = items.last();
            let p = self.insert_position(sorted, x, 0);
            sorted.subrange(0, p).push(x) + sorted.subrange(p, sorted.len() as int)
        }
    }
}

/// How two texts compare by their characters: -1, 0 or 1.
pub fn lex_order_exec(a: &str, b: &str) -> (r: i8)
    ensures
        r as int == lex_order(a@, b@),
{
    let x = chars_of(a);
    let y = chars_of(b);
    let mut i: usize = 0;
    assert(a@.subrange(0, a@.len() as int) =~= a@);
    assert(b@.subrange(0, b@.len() as int) =~= b@);
    while i < x.len() && i < y.len() && x[i] == y[i]
        invariant
            x@ == a@,
            y@ == b@,
            i <= x@.len(),
            i <= y@.len(),
            lex_order(a@, b@) == lex_order(a@.subrange(i as int, a@.len() as int), b@.subrange(i as int, b@.len() as int)),
        decreases x.len() - i,
    {
        assert(a@.subrange(i as int, a@.len() as int).drop_first() =~= a@.subrange(i + 1, a@.len() as int));
        assert(b@.subrange(i as int, b@.len() as int).drop_first() =~= b@.subrange(i + 1, b@.len() as int));
        i = i + 1;
    }
    let ghost ra = a@.subrange(i as int, a@.len() as int);
    let ghost rb = b@.subrange(i as int, b@.len() as int);
    if i == x.len() {
        assert(ra.len() == 0);
        if i == y.len() { 0 } else { -1 }
    } else if i == y.len() {
        1
    } else {
        assert(ra[0] == x@[i as int]);
        assert(rb[0] == y@[i as int]);
        assert(x@[i as int] != y@[i as int]);
        let cx = x[i] as u32;
        let cy = y[i] as u32;
        proof {
            vstd::utf8::char_u32_cast(x@[i as int], cx);
            vstd::utf8::char_u32_cast(y@[i as int], cy);
        }
        assert(cx != cy);
        if cx < cy { -1 } else { 1 }
    }
}

pub proof fn lemma_digits_value_monotone(s: Seq<char>, k: int)
    requires
        0 <= k <= s.len(),
        all_digits(s),
    ensures
        0 <= digits_value(s.take(k)) <= digits_value(s),
    decreases s.len() - k,
{
    if k < s.len() {
        lemma_digits_value_monotone(s, k + 1);
        assert(s.take(k + 1).drop_last() =~= s.take(k));
        assert(s.take(k + 1).last() == s[k]);
        let v = digits_value(s.take(k));
        lemma_digits_value_nonneg(s.take(k));
        assert(v * 10 + ((s[k] as u32) - ('0' as u32)) >= v) by (nonlinear_arith)
            requires v >= 0, (s[k] as u32) >= ('0' as u32);
    } else {
        assert(s.take(k) =~= s);
        lemma_digits_value_nonneg(s);
    }
}

pub proof fn lemma_digits_value_nonneg(s: Seq<char>)
    requires
        all_digits(s),
    ensures
        digits_value(s) >= 0,
    decreases s.len(),
{
    if s.len() > 0 {
        lemma_digits_value_nonneg(s.drop_last());
        assert(s.last() == s[s.len() - 1]);
        let v = digits_value(s.drop_last());
        assert(v * 10 >= 0) by (nonlinear_arith) requires v >= 0;
    }
}

/// `str::parse::<i128>` on decimal text: an optional sign and one or more digits, in range.
pub fn parse_i128(s: &str) -> (r: Option<i128>)
    ensures
        match r {
            Some(v) => parse_i128_spec(s@) == Some(v as int),
            None => parse_i128_spec(s@) is None,
        },
{
    let chars = chars_of(s);
    let n = chars.len();
    let negative = n > 0 && chars[0] == '-';
    let start: usize = if n > 0 && (chars[0] == '-' || chars[0] == '+') { 1 } else { 0 };
    let ghost digits = if s@.len() > 0 && (s@[0] == '-' || s@[0] == '+') { s@.drop_first() } else { s@ };
    assert(digits =~= s@.subrange(start as int, n as int));
    if start == n {
        return None;
    }
    let mut k: usize = start;
    while k < n
        invariant
            chars@ == s@,
            n == s@.len(),
            start <= k <= n,
            digits == s@.subrange(start as int, n as int),
            digits == (if s@.len() > 0 && (s@[0] == '-' || s@[0] == '+') { s@.drop_first() } else { s@ }),
            forall|j: int| start <= j < k ==> '0' <= #[trigger] chars@[j] <= '9',
        decreases n - k,
    {
        if !('0' <= chars[k] && chars[k] <= '9') {
            assert(!('0' <= digits[k - start] <= '9'));
            return None;
        }
        k = k + 1;
    }
    assert(all_digits(digits));
    let mut value: i128 = 0;
    let mut k: usize = start;
    while k < n
        invariant
            chars@ == s@,
            n == s@.len(),
            start <= k <= n,
            digits == s@.subrange(start as int, n as int),
            digits == (if s@.len() > 0 && (s@[0] == '-' || s@[0] == '+') { s@.drop_first() } else { s@ }),
            all_digits(digits),
            negative == (s@.len() > 0 && s@[0] == '-'),
            value as int == if negative { -digits_value(digits.take(k - start)) } else { digits_value(digits.take(k - start)) },
        decreases n - k,
    {
        assert(digits.take(k + 1 - start).drop_last() =~= digits.take(k - start));
        assert(digits.take(k + 1 - start).last() == chars@[k as int]);
        let d = ((chars[k] as u32) - ('0' as u32)) as i128;
        let next = match value.checked_mul(10) {
            Some(t) => if negative { t.checked_sub(d) } else { t.checked_add(d) },
            None => None,
        };
        match next {
            Some(v) => {
                value = v;
            },
            None => {
                proof {
                    lemma_digits_value_monotone(digits, k + 1 - start);
                    lemma_digits_value_nonneg(digits.take(k - start));
                    let pv = digits_value(digits.take(k - start));
                    assert(digits_value(digits.take(k + 1 - start)) == pv * 10 + d);
                    assert(d >= 0);
                }
                return None;
            },
        }
        k = k + 1;
    }
    assert(digits.take(k - start) =~= digits);
    Some(value)
}

/// The entries of a class order table as texts.
pub open spec fn entries_view(entries: Seq<(String, Option<String>)>) -> Seq<(Seq<char>, Option<Seq<char>>)> {
    entries.map_values(|e: (String, Option<String>)| (e.0@, match e.1 { Some(t) => Some(t@), None => None }))
}

fn class_order_lookup(entries: &Vec<(String, Option<String>)>, name: &str) -> (r: Option<i128>)
    ensures
        match r {
            Some(v) => class_order_of(entries_view(entries@), name@) == Some(v as int),
            None => class_order_of(entries_view(entries@), name@) is None,
        },
{
    let ghost all = entries_view(entries@);
    let mut i: usize = entries.len();
    assert(all.take(all.len() as int) =~= all);
    while i > 0
        invariant
            all == entries_view(entries@),
            i <= entries@.len(),
            class_order_of(all, name@) == class_order_of(all.take(i as int), name@),
        decreases i,
    {
        assert(all.take(i as int).drop_last() =~= all.take(i - 1));
        assert(all.take(i as int).last() == all[i - 1]);
        if str_eq(entries[i - 1].0.as_str(), name) {
            return match &entries[i - 1].1 {
                Some(text) => parse_i128(text.as_str()),
                None => None,
            };
        }
        i = i - 1;
    }
    None
}

pub open spec fn sort_item_views(items: Seq<(&str, Option<i128>)>) -> Seq<(Seq<char>, Option<int>)> {
    items.map_values(|e: (&str, Option<i128>)| (e.0@, match e.1 { Some(v) => Some(v as int), None => None }))
}

impl EnforceConsistentClassOrder {
    fn compare_exec(&self, left: (&str, Option<i128>), right: (&str, Option<i128>)) -> (r: i8)
        ensures
            r as int == self.compare(
                (left.0@, match left.1 { Some(v) => Some(v as int), None => None }),
                (right.0@, match right.1 { Some(v) => Some(v as int), None => None }),
            ),
    {
        match self.order {
            ClassOrder::Asc => lex_order_exec(left.0, right.0),
            ClassOrder::Desc => lex_order_exec(right.0, left.0),
            _ => match (left.1, right.1) {
                (Some(l), Some(r)) => if l < r { -1 } else if l > r { 1 } else { 0 },
                (None, Some(_)) => if self.unknown_class_position == UnknownPosition::Start { -1 } else { 1 },
                (Some(_), None) => if self.unknown_class_position == UnknownPosition::Start { 1 } else { -1 },
                (None, None) => match self.unknown_class_order {
                    UnknownOrder::Asc => lex_order_exec(left.0, right.0),
                    UnknownOrder::Desc => lex_order_exec(right.0, left.0),
                    UnknownOrder::Preserve => 0,
                },
            },
        }
    }

    fn sort_exec<'a>(&self, items: &Vec<(&'a str, Option<i128>)>) -> (r: Vec<(&'a str, Option<i128>)>)
        ensures
            sort_item_views(r@) == self.sort_classes(sort_item_views(items@)),
    {
        let ghost all = sort_item_views(items@);
        let mut sorted: Vec<(&'a str, Option<i128>)> = Vec::new();
        let mut i: usize = 0;
        while i < items.len()
            invariant
                all == sort_item_views(items@),
                i <= items@.len(),
                sort_item_views(sorted@) == self.sort_classes(all.take(i as int)),
            decreases items.len() - i,
        {
            let x = items[i];
            assert(all.take(i + 1).drop_last() =~= all.take(i as int));
            assert(all.take(i + 1).last() == all[i as int]);
            let ghost sv = sort_item_views(sorted@);
            let mut p: usize = 0;
            while p < sorted.len() && self.compare_exec(sorted[p], x) <= 0
                invariant
                    sv == sort_item_views(sorted@),
                    p <= sorted@.len(),
                    self.insert_position(sv, all[i as int], 0) == self.insert_position(sv, all[i as int], p as int),
                    all[i as int] == (x.0@, match x.1 { Some(v) => Some(v as int), None => None }),
                decreases sorted.len() - p,
            {
                p = p + 1;
            }
            sorted.insert(p, x);
            assert(sort_item_views(sorted@) =~= sv.subrange(0, p as int).push(all[i as int]) + sv.subrange(p as int, sv.len() as int));
            i = i + 1;
        }
        assert(all.take(i as int) =~= all);
        sorted
    }
}

/// Where the text before class `k` starts: after the previous class.
pub open spec fn prev_end(spans: Seq<(int, int)>, k: int) -> int {
    if k <= 0 { 0 } else { spans[k - 1].1 }
}

/// The text of class `k` in the rebuilt class string: the sorted class for a sortable one.
pub open spec fn class_text(s: Seq<char>, spans: Seq<(int, int)>, first: int, sorted: Seq<Seq<char>>, k: int) -> Seq<char> {
    if first <= k < first + sorted.len() { sorted[k - first] } else { s.subrange(spans[k].0, spans[k].1) }
}

/// The class string up to the end of class `m - 1`, the sortable classes replaced.
pub open spec fn rebuild_upto(s: Seq<char>, spans: Seq<(int, int)>, first: int, sorted: Seq<Seq<char>>, m: int) -> Seq<char>
    decreases m,
{
    if m <= 0 {
        Seq::empty()
    } else {
        rebuild_upto(s, spans, first, sorted, m - 1) + s.subrange(prev_end(spans, m - 1), spans[m - 1].0) + class_text(s, spans, first, sorted, m - 1)
    }
}

/// The class string with the sortable classes, from index `first` on, replaced by `sorted`; the
/// whitespace between them kept.
pub open spec fn rebuild(s: Seq<char>, spans: Seq<(int, int)>, first: int, sorted: Seq<Seq<char>>) -> Seq<char> {
    rebuild_upto(s, spans, first, sorted, spans.len() as int) + s.subrange(prev_end(spans, spans.len() as int), s.len() as int)
}

pub proof fn lemma_spans_ordered(s: Seq<char>, i: int)
    requires
        0 <= i <= s.len(),
    ensures
        forall|k: int| 0 <= k < class_spans(s, i).len() ==> i <= (#[trigger] class_spans(s, i)[k]).0 < class_spans(s, i)[k].1 <= s.len(),
        forall|k: int| 0 < k < class_spans(s, i).len() ==> class_spans(s, i)[k - 1].1 <= (#[trigger] class_spans(s, i)[k]).0,
    decreases s.len() - i,
{
    if i < s.len() {
        let start = run_end(s, i, true);
        lemma_run_end_bounds(s, i, true);
        let end = run_end(s, start, false);
        lemma_run_end_bounds(s, start, false);
        if start != end {
            lemma_spans_ordered(s, end);
            let spans = class_spans(s, i);
            let rest = class_spans(s, end);
            assert(spans == seq![(start, end)] + rest);
            assert forall|k: int| 0 <= k < spans.len() implies i <= (#[trigger] spans[k]).0 < spans[k].1 <= s.len() by {
                if k > 0 {
                    assert(spans[k] == rest[k - 1]);
                }
            }
            assert forall|k: int| 0 < k < spans.len() implies spans[k - 1].1 <= (#[trigger] spans[k]).0 by {
                assert(spans[k] == rest[k - 1]);
                if k > 1 {
                    assert(spans[k - 1] == rest[k - 2]);
                }
            }
        }
    }
}

/// Whether the class at `spans[k]` must stay where it is.
pub open spec fn class_is_sticky(s: Seq<char>, spans: Seq<(int, int)>, k: int, lead: bool, trail: bool) -> bool {
    (lead && spans[k].0 == 0) || (trail && spans[k].1 == s.len())
}

impl EnforceConsistentClassOrder {
    /// The sorted class string for `s`, if its classes are out of order. A sticky class at
    /// either end stays put; at least two classes have to be sortable. The official and strict
    /// orders need the design system's `orders`.
    pub open spec fn spec_check(&self, literal: TailwindLiteral, s: Seq<char>, orders: Option<Seq<(Seq<char>, Option<Seq<char>>)>>) -> Option<Seq<char>> {
        let spans = class_spans(s, 0);
        let n = spans.len() as int;
        let lead = literal.keep_leading;
        let trail = literal.keep_trailing;
        if n < 2 {
            None
        } else {
            let first = if class_is_sticky(s, spans, 0, lead, trail) { 1int } else { 0int };
            let last = n - if class_is_sticky(s, spans, n - 1, lead, trail) { 1int } else { 0int };
            let official = self.order == ClassOrder::Official || self.order == ClassOrder::Strict;
            if last - first < 2 || (official && orders is None) {
                None
            } else {
                let names = spans.subrange(first, last).map_values(|span: (int, int)| s.subrange(span.0, span.1));
                let items = names.map_values(|name: Seq<char>| (name, if official { class_order_of(orders.unwrap(), name) } else { None }));
                let sorted = self.sort_classes(items).map_values(|item: (Seq<char>, Option<int>)| item.0);
                if sorted == names { None } else { Some(rebuild(s, spans, first, sorted)) }
            }
        }
    }
}

pub open spec fn entries_option(orders: Option<&Vec<(String, Option<String>)>>) -> Option<Seq<(Seq<char>, Option<Seq<char>>)>> {
    match orders {
        Some(o) => Some(entries_view(o@)),
        None => None,
    }
}

pub open spec fn opt_int(o: Option<i128>) -> Option<int> {
    match o {
        Some(v) => Some(v as int),
        None => None,
    }
}

/// The class names of `spans[first..last]`.
pub open spec fn sortable_names(s: Seq<char>, spans: Seq<(int, int)>, first: int, last: int) -> Seq<Seq<char>> {
    spans.subrange(first, last).map_values(|span: (int, int)| s.subrange(span.0, span.1))
}

impl EnforceConsistentClassOrder {
    pub proof fn lemma_sort_len(&self, items: Seq<(Seq<char>, Option<int>)>)
        ensures
            self.sort_classes(items).len() == items.len(),
        decreases items.len(),
    {
        if items.len() > 0 {
            self.lemma_sort_len(items.drop_last());
            let sorted = self.sort_classes(items.drop_last());
            self.lemma_insert_position_bounds(sorted, items.last(), 0);
        }
    }

    pub proof fn lemma_insert_position_bounds(&self, sorted: Seq<(Seq<char>, Option<int>)>, x: (Seq<char>, Option<int>), i: int)
        requires
            0 <= i <= sorted.len(),
        ensures
            i <= self.insert_position(sorted, x, i) <= sorted.len(),
        decreases sorted.len() - i,
    {
        if i < sorted.len() && self.compare(sorted[i], x) <= 0 {
            self.lemma_insert_position_bounds(sorted, x, i + 1);
        }
    }
}

/// The sortable classes with the orders the design system gave them.
fn sortable_items<'a>(classes: &Vec<ClassRun<'a>>, first: usize, last: usize, official: bool, orders: Option<&Vec<(String, Option<String>)>>, Ghost(s): Ghost<Seq<char>>, Ghost(lead): Ghost<bool>, Ghost(trail): Ghost<bool>) -> (r: Vec<(&'a str, Option<i128>)>)
    requires
        classes@.len() == class_spans(s, 0).len(),
        forall|j: int| 0 <= j < classes@.len() ==> is_class_at(#[trigger] classes@[j], s, class_spans(s, 0)[j], lead, trail),
        first <= last <= classes@.len(),
        official ==> orders is Some,
    ensures
        sort_item_views(r@) == sortable_names(s, class_spans(s, 0), first as int, last as int).map_values(|name: Seq<char>|
            (name, if official { class_order_of(entries_option(orders).unwrap(), name) } else { None })),
{
    let ghost spans = class_spans(s, 0);
    let ghost names = sortable_names(s, spans, first as int, last as int);
    let ghost entries = entries_option(orders);
    let mut items: Vec<(&str, Option<i128>)> = Vec::new();
    let mut k: usize = first;
    while k < last
        invariant
            spans == class_spans(s, 0),
            classes@.len() == spans.len(),
            forall|j: int| 0 <= j < classes@.len() ==> is_class_at(#[trigger] classes@[j], s, spans[j], lead, trail),
            first <= k <= last <= classes@.len(),
            names == sortable_names(s, spans, first as int, last as int),
            entries == entries_option(orders),
            official ==> orders is Some,
            items@.len() == k - first,
            forall|j: int| 0 <= j < k - first ==> (#[trigger] items@[j]).0@ == names[j]
                && opt_int(items@[j].1) == if official { class_order_of(entries.unwrap(), names[j]) } else { None },
        decreases last - k,
    {
        assert(is_class_at(classes@[k as int], s, spans[k as int], lead, trail));
        let name = classes[k].name;
        assert(name@ == names[k - first]);
        let order = if official {
            match orders {
                Some(o) => class_order_lookup(o, name),
                None => None,
            }
        } else {
            None
        };
        items.push((name, order));
        k = k + 1;
    }
    assert(sort_item_views(items@) =~= names.map_values(|name: Seq<char>| (name, if official { class_order_of(entries.unwrap(), name) } else { None })));
    items
}

/// The class string with the classes `first..` replaced by `sorted`.
fn rebuild_exec(content: &str, classes: &Vec<ClassRun>, first: usize, sorted: &Vec<(&str, Option<i128>)>, Ghost(lead): Ghost<bool>, Ghost(trail): Ghost<bool>) -> (r: String)
    requires
        classes@.len() == class_spans(content@, 0).len(),
        forall|j: int| 0 <= j < classes@.len() ==> is_class_at(#[trigger] classes@[j], content@, class_spans(content@, 0)[j], lead, trail),
        first + sorted@.len() <= classes@.len(),
    ensures
        r@ == rebuild(content@, class_spans(content@, 0), first as int, sort_item_views(sorted@).map_values(|item: (Seq<char>, Option<int>)| item.0)),
{
    let ghost s = content@;
    let ghost spans = class_spans(s, 0);
    let ghost sorted_view = sort_item_views(sorted@).map_values(|item: (Seq<char>, Option<int>)| item.0);
    proof {
        lemma_spans_ordered(s, 0);
    }
    let n = classes.len();
    let last = first + sorted.len();
    let mut replacement = String::new();
    let mut cursor: usize = 0;
    let mut k: usize = 0;
    while k < n
        invariant
            s == content@,
            spans == class_spans(s, 0),
            n == classes@.len(),
            classes@.len() == spans.len(),
            forall|j: int| 0 <= j < classes@.len() ==> is_class_at(#[trigger] classes@[j], s, spans[j], lead, trail),
            forall|j: int| 0 <= j < spans.len() ==> 0 <= (#[trigger] spans[j]).0 < spans[j].1 <= s.len(),
            forall|j: int| 0 < j < spans.len() ==> spans[j - 1].1 <= (#[trigger] spans[j]).0,
            last == first + sorted@.len(),
            last <= n,
            sorted_view == sort_item_views(sorted@).map_values(|item: (Seq<char>, Option<int>)| item.0),
            k <= n,
            cursor == prev_end(spans, k as int),
            cursor <= s.len(),
            replacement@ == rebuild_upto(s, spans, first as int, sorted_view, k as int),
        decreases n - k,
    {
        assert(is_class_at(classes@[k as int], s, spans[k as int], lead, trail));
        let class = classes[k];
        proof {
            if k > 0 {
                assert(spans[k - 1].1 <= spans[k as int].0);
            }
        }
        push_str(&mut replacement, content.substring_char(cursor, class.start));
        if first <= k && k < last {
            assert(sorted_view[k - first] == sorted@[k - first].0@);
            push_str(&mut replacement, sorted[k - first].0);
        } else {
            push_str(&mut replacement, class.name);
        }
        cursor = class.end;
        k = k + 1;
    }
    push_str(&mut replacement, content.substring_char(cursor, content.unicode_len()));
    replacement
}

fn same_names(sorted: &Vec<(&str, Option<i128>)>, items: &Vec<(&str, Option<i128>)>) -> (r: bool)
    ensures
        r == (sort_item_views(sorted@).map_values(|item: (Seq<char>, Option<int>)| item.0)
            == sort_item_views(items@).map_values(|item: (Seq<char>, Option<int>)| item.0)),
{
    let ghost a = sort_item_views(sorted@).map_values(|item: (Seq<char>, Option<int>)| item.0);
    let ghost b = sort_item_views(items@).map_values(|item: (Seq<char>, Option<int>)| item.0);
    if sorted.len() != items.len() {
        assert(a.len() != b.len());
        return false;
    }
    let mut j: usize = 0;
    while j < sorted.len()
        invariant
            a == sort_item_views(sorted@).map_values(|item: (Seq<char>, Option<int>)| item.0),
            b == sort_item_views(items@).map_values(|item: (Seq<char>, Option<int>)| item.0),
            sorted@.len() == items@.len(),
            j <= sorted@.len(),
            forall|m: int| 0 <= m < j ==> a[m] == #[trigger] b[m],
        decreases sorted.len() - j,
    {
        assert(a[j as int] == sorted@[j as int].0@);
        assert(b[j as int] == items@[j as int].0@);
        if !str_eq(sorted[j].0, items[j].0) {
            return false;
        }
        j = j + 1;
    }
    assert(a =~= b);
    true
}

impl EnforceConsistentClassOrder {
    /// The class string `content` of `literal` with its classes sorted, if they are out of
    /// order. `orders` is what the design system answered for the classes, if it answered.
    pub fn check(&self, literal: &TailwindLiteral, content: &str, orders: Option<&Vec<(String, Option<String>)>>) -> (r: Option<ClassOrderReport>)
        ensures
            match r {
                Some(report) => self.spec_check(*literal, content@, entries_option(orders)) == Some(report.replacement@),
                None => self.spec_check(*literal, content@, entries_option(orders)) is None,
            },
    {
        let lead = literal.keep_leading;
        let trail = literal.keep_trailing;
        let classes = class_runs(content, lead, trail);
        let ghost s = content@;
        let ghost spans = class_spans(s, 0);
        let n = classes.len();
        if n < 2 {
            return None;
        }
        assert(is_class_at(classes@[0], s, spans[0], lead, trail));
        assert(is_class_at(classes@[n - 1], s, spans[n - 1], lead, trail));
        let first: usize = if classes[0].sticky { 1 } else { 0 };
        let last: usize = n - if classes[n - 1].sticky { 1usize } else { 0usize };
        let official = self.order == ClassOrder::Official || self.order == ClassOrder::Strict;
        if last < first + 2 {
            return None;
        }
        if official && orders.is_none() {
            return None;
        }
        let items = sortable_items(&classes, first, last, official, orders, Ghost(s), Ghost(lead), Ghost(trail));
        let sorted = self.sort_exec(&items);
        proof {
            self.lemma_sort_len(sort_item_views(items@));
            assert(sort_item_views(items@).map_values(|item: (Seq<char>, Option<int>)| item.0) =~= sortable_names(s, spans, first as int, last as int));
        }
        if same_names(&sorted, &items) {
            return None;
        }
        let replacement = rebuild_exec(content, &classes, first, &sorted, Ghost(lead), Ghost(trail));
        Some(ClassOrderReport { replacement })
    }
}

impl EnforceConsistentClassOrder {
    /// Sorting keeps every class: the sorted classes are the same, as many times each, so the
    /// fix only reorders a class string.
    pub proof fn sort_keeps_classes(&self, items: Seq<(Seq<char>, Option<int>)>)
        ensures
            self.sort_classes(items).to_multiset() == items.to_multiset(),
        decreases items.len(),
    {
        broadcast use vstd::seq_lib::group_to_multiset_ensures;
        if items.len() > 0 {
            let rest = items.drop_last();
            self.sort_keeps_classes(rest);
            let sorted = self.sort_classes(rest);
            let x = items.last();
            self.lemma_insert_position_bounds(sorted, x, 0);
            let p = self.insert_position(sorted, x, 0);
            assert(sorted.subrange(0, p).push(x) + sorted.subrange(p, sorted.len() as int) =~= sorted.insert(p, x));
            assert(items =~= rest.push(x));
        }
    }
}

impl EnforceConsistentClassOrder {
    proof fn lemma_insert_position_facts(&self, sorted: Seq<(Seq<char>, Option<int>)>, x: (Seq<char>, Option<int>), i: int)
        requires
            0 <= i <= sorted.len(),
        ensures
            i <= self.insert_position(sorted, x, i) <= sorted.len(),
            forall|k: int| i <= k < self.insert_position(sorted, x, i) ==> self.compare(#[trigger] sorted[k], x) <= 0,
            self.insert_position(sorted, x, i) < sorted.len() ==> self.compare(sorted[self.insert_position(sorted, x, i)], x) > 0,
        decreases sorted.len() - i,
    {
        if i < sorted.len() && self.compare(sorted[i], x) <= 0 {
            self.lemma_insert_position_facts(sorted, x, i + 1);
        }
    }

    /// Under the official (or strict) order, the sorted classes are grouped and ordered by what
    /// the design system says of them: the classes it orders come by ascending order, and the
    /// classes it does not order all come before them (`Start`) or all after them (`End`).
    pub proof fn official_order_groups_unknown_classes(&self, items: Seq<(Seq<char>, Option<int>)>)
        requires
            self.order == ClassOrder::Official || self.order == ClassOrder::Strict,
        ensures
            self.sort_classes(items).len() == items.len(),
            forall|i: int, j: int| 0 <= i < j < self.sort_classes(items).len()
                && (#[trigger] self.sort_classes(items)[i]).1 is Some && (#[trigger] self.sort_classes(items)[j]).1 is Some
                ==> self.sort_classes(items)[i].1->0 <= self.sort_classes(items)[j].1->0,
            self.unknown_class_position == UnknownPosition::Start ==> forall|i: int, j: int|
                0 <= i < j < self.sort_classes(items).len() && (#[trigger] self.sort_classes(items)[j]).1 is None
                ==> (#[trigger] self.sort_classes(items)[i]).1 is None,
            self.unknown_class_position == UnknownPosition::End ==> forall|i: int, j: int|
                0 <= i < j < self.sort_classes(items).len() && (#[trigger] self.sort_classes(items)[i]).1 is None
                ==> (#[trigger] self.sort_classes(items)[j]).1 is None,
        decreases items.len(),
    {
        self.lemma_sort_len(items);
        if items.len() > 0 {
            let rest = items.drop_last();
            self.official_order_groups_unknown_classes(rest);
            let sorted = self.sort_classes(rest);
            let x = items.last();
            self.lemma_insert_position_facts(sorted, x, 0);
            let p = self.insert_position(sorted, x, 0);
            let result = self.sort_classes(items);
            assert(result == sorted.subrange(0, p).push(x) + sorted.subrange(p, sorted.len() as int));
            assert(result.len() == sorted.len() + 1);
            assert forall|k: int| 0 <= k < result.len() implies #[trigger] result[k] == if k < p { sorted[k] } else if k == p { x } else { sorted[k - 1] } by {}
            let start = self.unknown_class_position == UnknownPosition::Start;
            // Before the insertion point no class compares above `x`; the class at it does.
            assert forall|i: int, j: int| 0 <= i < j < result.len()
                && (#[trigger] result[i]).1 is Some && (#[trigger] result[j]).1 is Some
                implies result[i].1->0 <= result[j].1->0 by {
                if j < p {
                } else if j == p {
                    assert(self.compare(sorted[i], x) <= 0);
                } else if i < p {
                } else if i == p {
                    assert(self.compare(sorted[p], x) > 0);
                    assert(sorted[p].1 is Some) by {
                        if sorted[p].1 is None {
                            if start {
                                assert(sorted[j - 1].1 is Some);
                            }
                        }
                    }
                    if j - 1 > p {
                        assert(sorted[p].1->0 <= sorted[j - 1].1->0);
                    }
                } else {
                }
            }
            if start {
                assert forall|i: int, j: int| 0 <= i < j < result.len() && (#[trigger] result[j]).1 is None
                    implies (#[trigger] result[i]).1 is None by {
                    if j < p {
                    } else if j == p {
                        assert(self.compare(sorted[i], x) <= 0);
                    } else if i < p {
                    } else if i == p {
                        assert(self.compare(sorted[p], x) > 0);
                        assert(sorted[j - 1].1 is None);
                        assert(sorted[p].1 is None);
                    } else {
                    }
                }
            } else {
                assert forall|i: int, j: int| 0 <= i < j < result.len() && (#[trigger] result[i]).1 is None
                    implies (#[trigger] result[j]).1 is None by {
                    if j < p {
                    } else if j == p {
                        assert(self.compare(sorted[i], x) <= 0);
                    } else if i < p {
                    } else if i == p {
                        assert(self.compare(sorted[p], x) > 0);
                        assert(sorted[p].1 is None);
                    } else {
                    }
                }
            }
        }
    }
}

impl EnforceConsistentClassOrder {
    proof fn lemma_compare_preorder(&self, a: (Seq<char>, Option<int>), b: (Seq<char>, Option<int>), c: (Seq<char>, Option<int>))
        ensures
            self.compare(a, b) > 0 ==> self.compare(b, a) < 0,
            self.compare(a, b) <= 0 && self.compare(b, c) <= 0 ==> self.compare(a, c) <= 0,
    {
        lex_order_is_total(a.0, b.0);
        lex_order_is_total(b.0, c.0);
        lex_order_is_total(a.0, c.0);
        lex_order_is_total(b.0, a.0);
        lex_order_is_total(c.0, b.0);
        lex_order_is_total(c.0, a.0);
        if lex_order(a.0, b.0) < 0 && lex_order(b.0, c.0) < 0 {
            lex_order_transitive(a.0, b.0, c.0);
        }
        if lex_order(c.0, b.0) < 0 && lex_order(b.0, a.0) < 0 {
            lex_order_transitive(c.0, b.0, a.0);
        }
    }

    proof fn lemma_sorted_by_compare(&self, items: Seq<(Seq<char>, Option<int>)>)
        ensures
            forall|i: int, j: int| 0 <= i < j < self.sort_classes(items).len()
                ==> self.compare(#[trigger] self.sort_classes(items)[i], #[trigger] self.sort_classes(items)[j]) <= 0,
        decreases items.len(),
    {
        self.lemma_sort_len(items);
        if items.len() > 0 {
            let rest = items.drop_last();
            self.lemma_sorted_by_compare(rest);
            self.lemma_sort_len(rest);
            let sorted = self.sort_classes(rest);
            let x = items.last();
            self.lemma_insert_position_facts(sorted, x, 0);
            let p = self.insert_position(sorted, x, 0);
            let result = self.sort_classes(items);
            assert(result == sorted.subrange(0, p).push(x) + sorted.subrange(p, sorted.len() as int));
            assert forall|k: int| 0 <= k < result.len() implies #[trigger] result[k] == if k < p { sorted[k] } else if k == p { x } else { sorted[k - 1] } by {}
            if p < sorted.len() {
                self.lemma_compare_preorder(sorted[p], x, x);
            }
            assert forall|i: int, j: int| 0 <= i < j < result.len()
                implies self.compare(#[trigger] result[i], #[trigger] result[j]) <= 0 by {
                if j < p {
                } else if j == p {
                } else if i < p {
                } else if i == p {
                    if j - 1 > p {
                        self.lemma_compare_preorder(x, sorted[p], sorted[j - 1]);
                    }
                } else {
                }
            }
        }
    }

    /// The sorted classes are in the configured order: alphabetical (`Asc`) or reverse
    /// alphabetical (`Desc`) by name; under the official order, the classes the design system
    /// does not order are among themselves alphabetical or reverse alphabetical as configured.
    pub proof fn sorted_classes_follow_the_order(&self, items: Seq<(Seq<char>, Option<int>)>)
        ensures
            self.order == ClassOrder::Asc ==> forall|i: int, j: int| 0 <= i < j < self.sort_classes(items).len()
                ==> lex_order((#[trigger] self.sort_classes(items)[i]).0, (#[trigger] self.sort_classes(items)[j]).0) <= 0,
            self.order == ClassOrder::Desc ==> forall|i: int, j: int| 0 <= i < j < self.sort_classes(items).len()
                ==> lex_order((#[trigger] self.sort_classes(items)[j]).0, (#[trigger] self.sort_classes(items)[i]).0) <= 0,
            (self.order == ClassOrder::Official || self.order == ClassOrder::Strict) && self.unknown_class_order == UnknownOrder::Asc
                ==> forall|i: int, j: int| 0 <= i < j < self.sort_classes(items).len()
                    && (#[trigger] self.sort_classes(items)[i]).1 is None && (#[trigger] self.sort_classes(items)[j]).1 is None
                    ==> lex_order(self.sort_classes(items)[i].0, self.sort_classes(items)[j].0) <= 0,
            (self.order == ClassOrder::Official || self.order == ClassOrder::Strict) && self.unknown_class_order == UnknownOrder::Desc
                ==> forall|i: int, j: int| 0 <= i < j < self.sort_classes(items).len()
                    && (#[trigger] self.sort_classes(items)[i]).1 is None && (#[trigger] self.sort_classes(items)[j]).1 is None
                    ==> lex_order(self.sort_classes(items)[j].0, self.sort_classes(items)[i].0) <= 0,
    {
        self.lemma_sorted_by_compare(items);
    }
}

/// Whether a sorted item is a class the design system does not order.
pub open spec fn is_unordered(item: (Seq<char>, Option<int>)) -> bool {
    item.1 is None
}

impl EnforceConsistentClassOrder {
    /// Under the official order with the unknown classes kept as they are (`Preserve`), the
    /// classes the design system does not order come out in the order they came in.
    pub proof fn preserved_unknown_classes_keep_their_order(&self, items: Seq<(Seq<char>, Option<int>)>)
        requires
            self.order == ClassOrder::Official || self.order == ClassOrder::Strict,
            self.unknown_class_order == UnknownOrder::Preserve,
        ensures
            self.sort_classes(items).filter(|item: (Seq<char>, Option<int>)| is_unordered(item))
                == items.filter(|item: (Seq<char>, Option<int>)| is_unordered(item)),
        decreases items.len(),
    {
        let pred = |item: (Seq<char>, Option<int>)| is_unordered(item);
        self.lemma_sort_len(items);
        if items.len() == 0 {
            assert(self.sort_classes(items) =~= items);
        } else {
            let rest = items.drop_last();
            self.preserved_unknown_classes_keep_their_order(rest);
            assert(items =~= rest.push(items.last()));
            self.official_order_groups_unknown_classes(rest);
            self.lemma_sort_len(rest);
            let sorted = self.sort_classes(rest);
            let x = items.last();
            self.lemma_insert_position_facts(sorted, x, 0);
            let p = self.insert_position(sorted, x, 0);
            let a = sorted.subrange(0, p);
            let b = sorted.subrange(p, sorted.len() as int);
            let result = self.sort_classes(items);
            assert(result == a.push(x) + b);
            assert(sorted =~= a + b);
            Seq::filter_distributes_over_add(a.push(x), b, pred);
            Seq::filter_distributes_over_add(a, b, pred);
            assert(items =~= rest.push(x));
            rest.lemma_filter_push(x, pred);
            a.lemma_filter_push(x, pred);
            if is_unordered(x) {
                if self.unknown_class_position == UnknownPosition::Start {
                    assert forall|k: int| 0 <= k < b.len() implies !is_unordered(#[trigger] b[k]) by {
                        assert(b[k] == sorted[p + k]);
                        assert(self.compare(sorted[p], x) > 0);
                        assert(sorted[p].1 is Some);
                        if k > 0 && sorted[p + k].1 is None {
                            assert(sorted[p].1 is None);
                        }
                    }
                } else {
                    assert(p == sorted.len()) by {
                        if p < sorted.len() {
                            assert(self.compare(sorted[p], x) > 0);
                        }
                    }
                    assert(b =~= Seq::<(Seq<char>, Option<int>)>::empty());
                }
                b.lemma_all_neg_filter_empty(pred);
                assert(b.filter(pred) =~= Seq::<(Seq<char>, Option<int>)>::empty());
                assert(result.filter(pred) =~= sorted.filter(pred).push(x));
            } else {
                assert(result.filter(pred) =~= sorted.filter(pred));
            }
        }
    }
}

/// Comparing texts by their characters is a total order: equal texts compare equal, swapping
/// the texts flips the result, and it is transitive.
pub proof fn lex_order_is_total(a: Seq<char>, b: Seq<char>)
    ensures
        (lex_order(a, b) == 0) == (a == b),
        lex_order(a, b) == -lex_order(b, a),
        -1 <= lex_order(a, b) <= 1,
    decreases a.len(),
{
    if a.len() > 0 && b.len() > 0 {
        if a[0] == b[0] {
            lex_order_is_total(a.drop_first(), b.drop_first());
            if a.drop_first() == b.drop_first() {
                assert(a =~= seq![a[0]] + a.drop_first());
                assert(b =~= seq![b[0]] + b.drop_first());
            }
        } else {
            if (a[0] as u32) == (b[0] as u32) {
                vstd::utf8::char_u32_cast(a[0], a[0] as u32);
                vstd::utf8::char_u32_cast(b[0], b[0] as u32);
            }
        }
    } else if a.len() == 0 && b.len() == 0 {
        assert(a =~= b);
    }
}

pub proof fn lex_order_transitive(a: Seq<char>, b: Seq<char>, c: Seq<char>)
    requires
        lex_order(a, b) < 0,
        lex_order(b, c) < 0,
    ensures
        lex_order(a, c) < 0,
    decreases a.len(),
{
    if a.len() > 0 && b.len() > 0 && c.len() > 0 && (a[0] as u32) == (b[0] as u32) && (b[0] as u32) == (c[0] as u32) {
        lex_order_transitive(a.drop_first(), b.drop_first(), c.drop_first());
    }
}

} // verus!
