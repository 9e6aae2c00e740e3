//! Logical properties: physical-direction utilities (`ml-2`, `text-left`, `size-4`) replaced by
//! their logical-property equivalents when the design system knows all of them.

use vstd::prelude::*;
use crate::class_rewrites::{base_of, with_base};
use crate::classes::{TailwindCandidate, class_spans, is_class_at, class_runs};
use crate::enforce_consistent_line_wrapping::{join_seq, join_strings, string_views};
use crate::lint::TailwindLiteral;
use crate::pattern::{ClassPattern, InvalidPattern, any_matches, any_pattern_matches, compile_all, first_invalid, pattern_views};
use crate::rules::{logical_bases, spec_logical_bases};
use crate::text::{byte_offset, byte_offset_of, str_eq, views};

verus! {

/// The configuration: patterns of classes to leave alone.
pub struct EnforceLogicalPropertiesConfig {
    pub ignore: Vec<String>,
}

/// Enforces logical-property classes in place of physical-direction ones.
pub struct EnforceLogicalProperties {
    pub ignore: Vec<ClassPattern>,
}

/// A physical class: where it is (byte offsets), the logical classes that replace it joined with spaces, and
/// whether there is more than one.
pub struct LogicalReport {
    pub start: usize,
    pub end: usize,
    pub replacement: String,
    pub plural: bool,
}

/// The logical classes that replace the class `name`, if its base is physical.
pub open spec fn logical_replacements(name: Seq<char>) -> Option<Seq<Seq<char>>> {
    match spec_logical_bases(base_of(name)) {
        Some(bases) => Some(bases.map_values(|b: Seq<char>| with_base(name, b))),
        None => None,
    }
}

/// The logical classes of the classes at `spans` of `s`, in order: the names whose design-system
/// status the rule needs.
pub open spec fn candidates_over(s: Seq<char>, spans: Seq<(int, int)>) -> Seq<Seq<char>>
    decreases spans.len(),
{
    if spans.len() == 0 {
        Seq::empty()
    } else {
        let span = spans.last();
        candidates_over(s, spans.drop_last()) + match logical_replacements(s.subrange(span.0, span.1)) {
            Some(names) => names,
            None => Seq::empty(),
        }
    }
}

/// The report for the class `name`: none when an ignore pattern matches it, its base is not
/// physical, or the design system does not know one of its replacements.
pub open spec fn logical_fix(name: Seq<char>, ignore: Seq<Seq<char>>, unknown: Seq<Seq<char>>) -> Option<(Seq<char>, bool)> {
    if any_matches(ignore, name) {
        None
    } else {
        match logical_replacements(name) {
            None => None,
            Some(names) => if exists|k: int| 0 <= k < names.len() && unknown.contains(#[trigger] names[k]) {
                None
            } else {
                Some((join_seq(names, " "@), names.len() != 1))
            },
        }
    }
}

/// The reports for the classes at `spans` of `s`.
pub open spec fn logical_over(s: Seq<char>, spans: Seq<(int, int)>, ignore: Seq<Seq<char>>, unknown: Seq<Seq<char>>) -> Seq<(int, int, Seq<char>, bool)>
    decreases spans.len(),
{
    if spans.len() == 0 {
        Seq::empty()
    } else {
        let rest = logical_over(s, spans.drop_last(), ignore, unknown);
        let span = spans.last();
        match logical_fix(s.subrange(span.0, span.1), ignore, unknown) {
            Some((replacement, plural)) => rest.push((byte_offset(s, span.0), byte_offset(s, span.1), replacement, plural)),
            None => rest,
        }
    }
}

fn replacements_of(name: &str) -> (r: Option<Vec<String>>)
    ensures
        match r {
            Some(v) => logical_replacements(name@) == Some(string_views(v@)),
            None => logical_replacements(name@) is None,
        },
{
    let parsed = TailwindCandidate::parse(name);
    let bases = match logical_bases(parsed.base) {
        Some(bases) => bases,
        None => return None,
    };
    let ghost bs = bases@.map_values(|t: String| t@);
    let mut out: Vec<String> = Vec::new();
    let mut k: usize = 0;
    while k < bases.len()
        invariant
            bs == bases@.map_values(|t: String| t@),
            parsed.parts_of(name@),
            k <= bases@.len(),
            string_views(out@) == bs.take(k as int).map_values(|b: Seq<char>| with_base(name@, b)),
        decreases bases.len() - k,
    {
        let replaced = parsed.replace_base(bases[k].as_str());
        let ghost before = string_views(out@);
        out.push(replaced);
        assert(string_views(out@) =~= before.push(replaced@));
        assert(bs.take(k + 1).map_values(|b: Seq<char>| with_base(name@, b))
            =~= bs.take(k as int).map_values(|b: Seq<char>| with_base(name@, b)).push(with_base(name@, bs[k as int])));
        k = k + 1;
    }
    assert(bs.take(k as int) =~= bs);
    Some(out)
}

fn listed(names: &Vec<&str>, name: &str) -> (r: bool)
    ensures
        r == views(names@).contains(name@),
{
    let mut k: usize = 0;
    while k < names.len()
        invariant
            k <= names@.len(),
            forall|j: int| 0 <= j < k ==> views(names@)[j] != name@,
        decreases names.len() - k,
    {
        if str_eq(names[k], name) {
            assert(views(names@)[k as int] == name@);
            return true;
        }
        k = k + 1;
    }
    false
}

/// The logical classes that the physical classes of `content` would become, in order.
pub fn logical_candidates(literal: &TailwindLiteral, content: &str) -> (r: Vec<String>)
    ensures
        string_views(r@) == candidates_over(content@, class_spans(content@, 0)),
{
    let classes = class_runs(content, literal.keep_leading, literal.keep_trailing);
    let ghost s = content@;
    let ghost spans = class_spans(s, 0);
    let mut out: Vec<String> = Vec::new();
    let mut i: usize = 0;
    while i < classes.len()
        invariant
            s == content@,
            classes@.len() == spans.len(),
            forall|k: int| 0 <= k < classes@.len() ==> is_class_at(#[trigger] classes@[k], s, spans[k], literal.keep_leading, literal.keep_trailing),
            i <= classes@.len(),
            string_views(out@) == candidates_over(s, spans.take(i as int)),
        decreases classes.len() - i,
    {
        let class = classes[i];
        assert(is_class_at(classes@[i as int], s, spans[i as int], literal.keep_leading, literal.keep_trailing));
        assert(spans.take(i + 1).drop_last() =~= spans.take(i as int));
        let ghost before = string_views(out@);
        match replacements_of(class.name) {
            Some(names) => {
                let mut k: usize = 0;
                while k < names.len()
                    invariant
                        k <= names@.len(),
                        string_views(out@) == before + string_views(names@).take(k as int),
                    decreases names.len() - k,
                {
                    let ghost prior = string_views(out@);
                    out.push(names[k].clone());
                    assert(string_views(out@) =~= prior.push(names@[k as int]@));
                    assert(string_views(names@).take(k + 1) =~= string_views(names@).take(k as int).push(names@[k as int]@));
                    k = k + 1;
                }
                assert(string_views(names@).take(k as int) =~= string_views(names@));
            },
            None => {
                assert(before + Seq::<Seq<char>>::empty() =~= before);
            },
        }
        i = i + 1;
    }
    assert(spans.take(i as int) =~= spans);
    out
}

impl EnforceLogicalProperties {
    /// Compiles the ignore patterns; the first that does not compile is the error.
    pub fn from_config(config: &EnforceLogicalPropertiesConfig) -> (r: Result<EnforceLogicalProperties, InvalidPattern>)
        ensures
            match r {
                Ok(rule) => first_invalid(crate::compile::texts(config.ignore@)) is None
                    && pattern_views(rule.ignore@) == crate::compile::texts(config.ignore@),
                Err(e) => first_invalid(crate::compile::texts(config.ignore@)) matches Some(k)
                    && e.pattern@ == crate::compile::texts(config.ignore@)[k],
            },
    {
        match compile_all(&config.ignore) {
            Ok(ignore) => Ok(EnforceLogicalProperties { ignore }),
            Err(e) => Err(e),
        }
    }

    /// The physical classes of `content` to replace, in order, given the logical classes that
    /// the design system does not know.
    pub fn check(&self, literal: &TailwindLiteral, content: &str, unknown: &Vec<&str>) -> (r: Vec<LogicalReport>)
        ensures
            r@.map_values(|x: LogicalReport| (x.start as int, x.end as int, x.replacement@, x.plural))
                == logical_over(content@, class_spans(content@, 0), pattern_views(self.ignore@), views(unknown@)),
    {
        let classes = class_runs(content, literal.keep_leading, literal.keep_trailing);
        let ghost s = content@;
        let ghost spans = class_spans(s, 0);
        let ghost ignore = pattern_views(self.ignore@);
        let ghost missing = views(unknown@);
        let mut reports: Vec<LogicalReport> = Vec::new();
        let mut i: usize = 0;
        proof {
            assert(reports@.map_values(|x: LogicalReport| (x.start as int, x.end as int, x.replacement@, x.plural))
                =~= logical_over(s, spans.take(0), ignore, missing));
        }
        while i < classes.len()
            invariant
                s == content@,
                ignore == pattern_views(self.ignore@),
                missing == views(unknown@),
                classes@.len() == spans.len(),
                forall|k: int| 0 <= k < classes@.len() ==> is_class_at(#[trigger] classes@[k], s, spans[k], literal.keep_leading, literal.keep_trailing),
                i <= classes@.len(),
                reports@.map_values(|x: LogicalReport| (x.start as int, x.end as int, x.replacement@, x.plural))
                    == logical_over(s, spans.take(i as int), ignore, missing),
            decreases classes.len() - i,
        {
            let class = classes[i];
            assert(is_class_at(classes@[i as int], s, spans[i as int], literal.keep_leading, literal.keep_trailing));
            assert(spans.take(i + 1).drop_last() =~= spans.take(i as int));
            if !any_pattern_matches(&self.ignore, class.name) {
                if let Some(names) = replacements_of(class.name) {
                    let ghost ns = string_views(names@);
                    let mut k: usize = 0;
                    let mut known = true;
                    while k < names.len() && known
                        invariant
                            ns == string_views(names@),
                            missing == views(unknown@),
                            k <= names@.len(),
                            known == forall|j: int| 0 <= j < k ==> !missing.contains(#[trigger] ns[j]),
                        decreases names.len() - k,
                    {
                        if listed(unknown, names[k].as_str()) {
                            assert(missing.contains(ns[k as int]));
                            known = false;
                        }
                        k = k + 1;
                    }
                    if known {
                        assert(k == names.len());
                        let replacement = join_strings(&names, " ");
                        let report = LogicalReport { start: byte_offset_of(content, class.start), end: byte_offset_of(content, class.end), replacement, plural: names.len() != 1 };
                        let ghost before = reports@.map_values(|x: LogicalReport| (x.start as int, x.end as int, x.replacement@, x.plural));
                        reports.push(report);
                        assert(reports@.map_values(|x: LogicalReport| (x.start as int, x.end as int, x.replacement@, x.plural))
                            =~= before.push((byte_offset(s, class.start as int), byte_offset(s, class.end as int), report.replacement@, report.plural)));
                    } else {
                        assert(exists|j: int| 0 <= j < ns.len() && missing.contains(#[trigger] ns[j]));
                    }
                }
            }
            i = i + 1;
        }
        assert(spans.take(i as int) =~= spans);
        reports
    }
}

} // verus!
