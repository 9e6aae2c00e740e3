//! Conflicting classes: the classes of a class string that the design system reports as setting
//! the same CSS properties as another class of it.

use vstd::prelude::*;
use crate::classes::{ClassRun, class_spans, is_class_at, class_runs};
use crate::enforce_consistent_class_order::{lex_order, lex_order_exec, lex_order_is_total, lex_order_transitive};
use crate::enforce_shorthand_classes::string_list;
use crate::lint::TailwindLiteral;
use crate::text::{byte_offset, byte_offset_of, str_eq};
use crate::compile::{ClassConflict, Property};

verus! {


/// A class in conflict: where it is (byte offsets), the classes it conflicts with and the properties they
/// share, each sorted and without repeats.
pub struct ConflictReport {
    pub start: usize,
    pub end: usize,
    pub conflicting: Vec<String>,
    pub properties: Vec<String>,
}

/// Disallows classes that set the same properties as another class of the string.
#[derive(Clone, Copy)]
pub struct NoConflictingClasses;

pub type ConflictView = (Seq<char>, Seq<char>, Seq<Seq<char>>);

/// The names of properties.
pub open spec fn property_names(ps: Seq<Property>) -> Seq<Seq<char>> {
    ps.map_values(|p: Property| p.css_property_name@)
}

pub open spec fn conflict_view(c: ClassConflict) -> ConflictView {
    (c.class_name@, c.conflicting_class_name@, property_names(c.properties@))
}

/// The first index from `i` on whose text sorts after `x`.
pub open spec fn first_after(sorted: Seq<Seq<char>>, x: Seq<char>, i: int) -> int
    decreases sorted.len() - i,
{
    if i < 0 || i >= sorted.len() {
        sorted.len() as int
    } else if lex_order(sorted[i], x) > 0 {
        i
    } else {
        first_after(sorted, x, i + 1)
    }
}

/// `sorted` with `x` inserted in order, unless it is there already.
pub open spec fn insert_sorted(sorted: Seq<Seq<char>>, x: Seq<char>) -> Seq<Seq<char>> {
    if sorted.contains(x) {
        sorted
    } else {
        let p = first_after(sorted, x, 0);
        sorted.subrange(0, p).push(x) + sorted.subrange(p, sorted.len() as int)
    }
}

/// `sorted` with each of `items` inserted.
pub open spec fn insert_all_sorted(sorted: Seq<Seq<char>>, items: Seq<Seq<char>>) -> Seq<Seq<char>>
    decreases items.len(),
{
    if items.len() == 0 { sorted } else { insert_sorted(insert_all_sorted(sorted, items.drop_last()), items.last()) }
}

/// The classes that `name` conflicts with, among the first `n` conflicts, sorted.
pub open spec fn conflicting_names(cs: Seq<ConflictView>, name: Seq<char>, n: int) -> Seq<Seq<char>>
    decreases n,
{
    if n <= 0 {
        Seq::empty()
    } else {
        let rest = conflicting_names(cs, name, n - 1);
        if cs[n - 1].0 == name { insert_sorted(rest, cs[n - 1].1) } else { rest }
    }
}

/// Whether conflict `k` is the last one reported for its pair of classes.
pub open spec fn is_final(cs: Seq<ConflictView>, k: int) -> bool {
    forall|j: int| k < j < cs.len() ==> !(#[trigger] cs[j].0 == cs[k].0 && cs[j].1 == cs[k].1)
}

/// The properties that `name` shares with the classes it conflicts with, among the first `n`
/// conflicts (the last report of each pair counting), sorted.
pub open spec fn conflict_properties(cs: Seq<ConflictView>, name: Seq<char>, n: int) -> Seq<Seq<char>>
    decreases n,
{
    if n <= 0 {
        Seq::empty()
    } else {
        let rest = conflict_properties(cs, name, n - 1);
        if cs[n - 1].0 == name && is_final(cs, n - 1) { insert_all_sorted(rest, cs[n - 1].2) } else { rest }
    }
}

pub type ConflictReportView = (int, int, Seq<Seq<char>>, Seq<Seq<char>>);

pub open spec fn conflict_report_view(r: ConflictReport) -> ConflictReportView {
    (r.start as int, r.end as int, string_list(r.conflicting@), string_list(r.properties@))
}

/// The reports for the classes at `spans[..m]` of `s`.
pub open spec fn conflict_reports_upto(s: Seq<char>, spans: Seq<(int, int)>, cs: Seq<ConflictView>, m: int) -> Seq<ConflictReportView>
    decreases m,
{
    if m <= 0 {
        Seq::empty()
    } else {
        let rest = conflict_reports_upto(s, spans, cs, m - 1);
        let span = spans[m - 1];
        let name = s.subrange(span.0, span.1);
        let names = conflicting_names(cs, name, cs.len() as int);
        if names.len() == 0 {
            rest
        } else {
            rest.push((byte_offset(s, span.0), byte_offset(s, span.1), names, conflict_properties(cs, name, cs.len() as int)))
        }
    }
}

/// The reports for a class string: none with fewer than two classes or when there is no design
/// system to ask.
pub open spec fn spec_conflict_reports(s: Seq<char>, conflicts: Option<Seq<ConflictView>>) -> Seq<ConflictReportView> {
    let spans = class_spans(s, 0);
    if spans.len() < 2 {
        Seq::empty()
    } else {
        match conflicts {
            None => Seq::empty(),
            Some(cs) => conflict_reports_upto(s, spans, cs, spans.len() as int),
        }
    }
}

fn contains_string(list: &Vec<String>, x: &str) -> (r: bool)
    ensures
        r == string_list(list@).contains(x@),
{
    let mut k: usize = 0;
    while k < list.len()
        invariant
            k <= list@.len(),
            forall|j: int| 0 <= j < k ==> list@[j]@ != x@,
        decreases list.len() - k,
    {
        if str_eq(list[k].as_str(), x) {
            assert(string_list(list@)[k as int] == x@);
            return true;
        }
        k = k + 1;
    }
    proof {
        if string_list(list@).contains(x@) {
            let j = choose|j: int| 0 <= j < string_list(list@).len() && string_list(list@)[j] == x@;
            assert(list@[j]@ == x@);
        }
    }
    false
}

pub(crate) fn insert_sorted_exec(sorted: &mut Vec<String>, x: &str)
    ensures
        string_list(final(sorted)@) == insert_sorted(string_list(old(sorted)@), x@),
{
    if contains_string(sorted, x) {
        return;
    }
    let ghost sv = string_list(sorted@);
    let mut p: usize = 0;
    while p < sorted.len() && lex_order_exec(sorted[p].as_str(), x) <= 0
        invariant
            sv == string_list(sorted@),
            p <= sorted@.len(),
            first_after(sv, x@, 0) == first_after(sv, x@, p as int),
        decreases sorted.len() - p,
    {
        p = p + 1;
    }
    let owned = x.to_owned();
    sorted.insert(p, owned);
    assert(string_list(sorted@) =~= sv.subrange(0, p as int).push(x@) + sv.subrange(p as int, sv.len() as int));
}

/// The conflicting classes and shared properties of the class `name`.
fn conflicts_of(conflicts: &Vec<ClassConflict>, name: &str) -> (r: (Vec<String>, Vec<String>))
    ensures
        string_list(r.0@) == conflicting_names(conflicts@.map_values(|c: ClassConflict| conflict_view(c)), name@, conflicts@.len() as int),
        string_list(r.1@) == conflict_properties(conflicts@.map_values(|c: ClassConflict| conflict_view(c)), name@, conflicts@.len() as int),
{
    let ghost cs = conflicts@.map_values(|c: ClassConflict| conflict_view(c));
    let mut names: Vec<String> = Vec::new();
    let mut properties: Vec<String> = Vec::new();
    let mut k: usize = 0;
    assert(string_list(names@) =~= Seq::<Seq<char>>::empty());
    assert(string_list(properties@) =~= Seq::<Seq<char>>::empty());
    while k < conflicts.len()
        invariant
            cs == conflicts@.map_values(|c: ClassConflict| conflict_view(c)),
            k <= conflicts@.len(),
            string_list(names@) == conflicting_names(cs, name@, k as int),
            string_list(properties@) == conflict_properties(cs, name@, k as int),
        decreases conflicts.len() - k,
    {
        let c = &conflicts[k];
        assert(cs[k as int] == conflict_view(conflicts@[k as int]));
        if str_eq(c.class_name.as_str(), name) {
            insert_sorted_exec(&mut names, c.conflicting_class_name.as_str());
            let mut last = true;
            let mut j: usize = k + 1;
            while j < conflicts.len()
                invariant
                    cs == conflicts@.map_values(|c: ClassConflict| conflict_view(c)),
                    k < j <= conflicts@.len(),
                    cs[k as int] == conflict_view(conflicts@[k as int]),
                    last == forall|m: int| k < m < j ==> !(#[trigger] cs[m].0 == cs[k as int].0 && cs[m].1 == cs[k as int].1),
                decreases conflicts.len() - j,
            {
                assert(cs[j as int] == conflict_view(conflicts@[j as int]));
                assert(cs[j as int].0 == conflicts@[j as int].class_name@ && cs[j as int].1 == conflicts@[j as int].conflicting_class_name@);
                if str_eq(conflicts[j].class_name.as_str(), conflicts[k].class_name.as_str())
                    && str_eq(conflicts[j].conflicting_class_name.as_str(), conflicts[k].conflicting_class_name.as_str()) {
                    last = false;
                }
                j = j + 1;
            }
            assert(last == is_final(cs, k as int));
            if last {
                let ghost start = string_list(properties@);
                let ghost items = property_names(c.properties@);
                let mut m: usize = 0;
                while m < c.properties.len()
                    invariant
                        items == property_names(c.properties@),
                        m <= c.properties@.len(),
                        string_list(properties@) == insert_all_sorted(start, items.take(m as int)),
                    decreases c.properties.len() - m,
                {
                    assert(items.take(m + 1).drop_last() =~= items.take(m as int));
                    insert_sorted_exec(&mut properties, c.properties[m].css_property_name.as_str());
                    m = m + 1;
                }
                assert(items.take(m as int) =~= items);
            }
        }
        k = k + 1;
    }
    (names, properties)
}

pub open spec fn conflicts_option(o: Option<&Vec<ClassConflict>>) -> Option<Seq<ConflictView>> {
    match o {
        Some(v) => Some(v@.map_values(|c: ClassConflict| conflict_view(c))),
        None => None,
    }
}

impl NoConflictingClasses {
    /// The classes of `content` in conflict, in order (a class written twice is reported
    /// twice). `conflicts` is what the design system reports for the classes, if there is one.
    pub fn check(&self, literal: &TailwindLiteral, content: &str, conflicts: Option<&Vec<ClassConflict>>) -> (r: Vec<ConflictReport>)
        ensures
            r@.map_values(|x: ConflictReport| conflict_report_view(x)) == spec_conflict_reports(content@, conflicts_option(conflicts)),
    {
        let classes = class_runs(content, literal.keep_leading, literal.keep_trailing);
        let ghost s = content@;
        let ghost spans = class_spans(s, 0);
        let mut reports: Vec<ConflictReport> = Vec::new();
        assert(reports@.map_values(|x: ConflictReport| conflict_report_view(x)) =~= Seq::<ConflictReportView>::empty());
        if classes.len() < 2 {
            return reports;
        }
        let conflicts = match conflicts {
            Some(c) => c,
            None => {
                return reports;
            },
        };
        let ghost cs = conflicts@.map_values(|c: ClassConflict| conflict_view(c));
        let mut i: usize = 0;
        while i < classes.len()
            invariant
                s == content@,
                spans == class_spans(s, 0),
                cs == conflicts@.map_values(|c: ClassConflict| conflict_view(c)),
                classes@.len() == spans.len(),
                forall|j: int| 0 <= j < classes@.len() ==> is_class_at(#[trigger] classes@[j], s, spans[j], literal.keep_leading, literal.keep_trailing),
                i <= classes@.len(),
                reports@.map_values(|x: ConflictReport| conflict_report_view(x)) == conflict_reports_upto(s, spans, cs, i as int),
            decreases classes.len() - i,
        {
            let class = classes[i];
            assert(is_class_at(classes@[i as int], s, spans[i as int], literal.keep_leading, literal.keep_trailing));
            let (names, properties) = conflicts_of(conflicts, class.name);
            let ghost before = reports@.map_values(|x: ConflictReport| conflict_report_view(x));
            if names.len() > 0 {
                let report = ConflictReport { start: byte_offset_of(content, class.start), end: byte_offset_of(content, class.end), conflicting: names, properties };
                reports.push(report);
                assert(reports@.map_values(|x: ConflictReport| conflict_report_view(x)) =~= before.push(conflict_report_view(report)));
            } else {
                assert(string_list(names@).len() == 0);
            }
            i = i + 1;
        }
        reports
    }
}

/// Whether the texts are in strictly increasing order.
pub open spec fn strictly_sorted(s: Seq<Seq<char>>) -> bool {
    forall|i: int, j: int| 0 <= i < j < s.len() ==> lex_order(#[trigger] s[i], #[trigger] s[j]) < 0
}

pub proof fn lemma_first_after(sorted: Seq<Seq<char>>, x: Seq<char>, i: int)
    requires
        0 <= i <= sorted.len(),
    ensures
        i <= first_after(sorted, x, i) <= sorted.len(),
        forall|j: int| i <= j < first_after(sorted, x, i) ==> lex_order(#[trigger] sorted[j], x) <= 0,
        first_after(sorted, x, i) < sorted.len() ==> lex_order(sorted[first_after(sorted, x, i)], x) > 0,
    decreases sorted.len() - i,
{
    if i < sorted.len() && lex_order(sorted[i], x) <= 0 {
        lemma_first_after(sorted, x, i + 1);
    }
}

/// Inserting a text into a sorted list of texts keeps it sorted and without repeats, and adds
/// just that text.
pub proof fn insert_sorted_keeps_order(sorted: Seq<Seq<char>>, x: Seq<char>)
    requires
        strictly_sorted(sorted),
    ensures
        strictly_sorted(insert_sorted(sorted, x)),
        forall|y: Seq<char>| #[trigger] insert_sorted(sorted, x).contains(y) <==> (sorted.contains(y) || y == x),
{
    if !sorted.contains(x) {
        lemma_first_after(sorted, x, 0);
        let p = first_after(sorted, x, 0);
        let result = insert_sorted(sorted, x);
        assert(result == sorted.subrange(0, p).push(x) + sorted.subrange(p, sorted.len() as int));
        assert forall|j: int| 0 <= j < p implies lex_order(#[trigger] sorted[j], x) < 0 by {
            lex_order_is_total(sorted[j], x);
            assert(sorted[j] != x);
        }
        if p < sorted.len() {
            lex_order_is_total(sorted[p], x);
        }
        assert forall|i: int, j: int| 0 <= i < j < result.len() implies lex_order(#[trigger] result[i], #[trigger] result[j]) < 0 by {
            if j < p {
                assert(result[i] == sorted[i] && result[j] == sorted[j]);
            } else if j == p {
                assert(result[i] == sorted[i]);
            } else if i < p {
                assert(result[i] == sorted[i] && result[j] == sorted[j - 1]);
            } else if i == p {
                assert(result[j] == sorted[j - 1]);
                if j - 1 > p {
                    lex_order_transitive(x, sorted[p], sorted[j - 1]);
                }
            } else {
                assert(result[i] == sorted[i - 1] && result[j] == sorted[j - 1]);
            }
        }
        assert forall|y: Seq<char>| #[trigger] result.contains(y) <==> (sorted.contains(y) || y == x) by {
            if result.contains(y) {
                let k = choose|k: int| 0 <= k < result.len() && result[k] == y;
                if k < p {
                    assert(sorted[k] == y);
                } else if k > p {
                    assert(sorted[k - 1] == y);
                }
            }
            if sorted.contains(y) {
                let k = choose|k: int| 0 <= k < sorted.len() && sorted[k] == y;
                if k < p {
                    assert(result[k] == y);
                } else {
                    assert(result[k + 1] == y);
                }
            }
            if y == x {
                assert(result[p] == x);
            }
        }
    }
}

/// The classes a class conflicts with are reported in order, each once: exactly those that
/// some reported conflict of the class names.
pub proof fn conflicting_names_are_sorted(cs: Seq<ConflictView>, name: Seq<char>, n: int)
    requires
        n <= cs.len(),
    ensures
        strictly_sorted(conflicting_names(cs, name, n)),
        forall|y: Seq<char>| #[trigger] conflicting_names(cs, name, n).contains(y) <==>
            exists|k: int| 0 <= k < n && cs[k].0 == name && #[trigger] cs[k].1 == y,
    decreases n,
{
    if n > 0 {
        conflicting_names_are_sorted(cs, name, n - 1);
        let rest = conflicting_names(cs, name, n - 1);
        if cs[n - 1].0 == name {
            insert_sorted_keeps_order(rest, cs[n - 1].1);
        }
        assert forall|y: Seq<char>| #[trigger] conflicting_names(cs, name, n).contains(y) <==>
            exists|k: int| 0 <= k < n && cs[k].0 == name && #[trigger] cs[k].1 == y by {
            if exists|k: int| 0 <= k < n && cs[k].0 == name && #[trigger] cs[k].1 == y {
                let k = choose|k: int| 0 <= k < n && cs[k].0 == name && #[trigger] cs[k].1 == y;
                if k < n - 1 {
                    assert(rest.contains(y));
                }
            }
        }
    }
}

pub proof fn lemma_insert_all_sorted(sorted: Seq<Seq<char>>, items: Seq<Seq<char>>)
    requires
        strictly_sorted(sorted),
    ensures
        strictly_sorted(insert_all_sorted(sorted, items)),
    decreases items.len(),
{
    if items.len() > 0 {
        lemma_insert_all_sorted(sorted, items.drop_last());
        insert_sorted_keeps_order(insert_all_sorted(sorted, items.drop_last()), items.last());
    }
}

/// The properties a class shares with the classes it conflicts with are reported in order,
/// each once.
pub proof fn conflict_properties_are_sorted(cs: Seq<ConflictView>, name: Seq<char>, n: int)
    ensures
        strictly_sorted(conflict_properties(cs, name, n)),
    decreases n,
{
    if n > 0 {
        conflict_properties_are_sorted(cs, name, n - 1);
        if cs[n - 1].0 == name && is_final(cs, n - 1) {
            lemma_insert_all_sorted(conflict_properties(cs, name, n - 1), cs[n - 1].2);
        }
    }
}

} // verus!
