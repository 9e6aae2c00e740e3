//! Canonical classes: the classes of a class string that the design system spells another way,
//! reported with the canonical spelling it suggests.

use vstd::prelude::*;
use crate::classes::{class_spans, is_class_at, class_runs};
use crate::enforce_consistent_line_wrapping::{join_seq, join_strings, string_views};
use crate::enforce_shorthand_classes::string_list;
use crate::lint::TailwindLiteral;
use crate::no_conflicting_classes::{insert_sorted, insert_sorted_exec};
use crate::pattern::{ClassPattern, InvalidPattern, any_matches, any_pattern_matches, compile_all, first_invalid, pattern_views};
use crate::text::{byte_offset, byte_offset_of, push_str, str_eq};

verus! {

/// The configuration: whether the design system collapses longhands and writes logical
/// properties as physical ones, and patterns of classes to leave alone.
pub struct EnforceCanonicalClassesConfig {
    pub collapse: bool,
    pub logical: bool,
    pub ignore: Vec<String>,
}

impl Default for EnforceCanonicalClassesConfig {
    fn default() -> (r: Self)
        ensures
            r.collapse && r.logical && r.ignore@.len() == 0,
    {
        EnforceCanonicalClassesConfig { collapse: true, logical: true, ignore: Vec::new() }
    }
}

/// Enforces the spellings that the design system's canonicalization suggests.
pub struct EnforceCanonicalClasses {
    pub collapse: bool,
    pub logical: bool,
    pub ignore: Vec<ClassPattern>,
}

/// A suggestion of the design system: the classes it canonicalized together and their output.
pub struct CanonicalClass {
    pub input: Vec<String>,
    pub output: String,
}

/// A class spelled otherwise than the design system suggests: where it is (byte offsets), the
/// message, and its replacement (empty for a class that a collapse removes).
pub struct CanonicalReport {
    pub start: usize,
    pub end: usize,
    pub message: String,
    pub replacement: String,
}

pub type SuggestionModel = (Seq<char>, Seq<Seq<char>>, Seq<char>);

pub open spec fn suggestion_views(entries: Seq<(String, CanonicalClass)>) -> Seq<SuggestionModel> {
    entries.map_values(|e: (String, CanonicalClass)| (e.0@, string_list(e.1.input@), e.1.output@))
}

/// The names to ask the design system about: the classes that no ignore pattern matches, sorted
/// and each once.
pub open spec fn query_names_over(s: Seq<char>, spans: Seq<(int, int)>, ignore: Seq<Seq<char>>) -> Seq<Seq<char>>
    decreases spans.len(),
{
    if spans.len() == 0 {
        Seq::empty()
    } else {
        let rest = query_names_over(s, spans.drop_last(), ignore);
        let span = spans.last();
        let name = s.subrange(span.0, span.1);
        if any_matches(ignore, name) { rest } else { insert_sorted(rest, name) }
    }
}

/// The suggestion for `name`: that of its first entry.
pub open spec fn suggestion_for(entries: Seq<SuggestionModel>, name: Seq<char>, k: int) -> Option<(Seq<Seq<char>>, Seq<char>)>
    decreases entries.len() - k,
{
    if k < 0 || k >= entries.len() {
        None
    } else if entries[k].0 == name {
        Some((entries[k].1, entries[k].2))
    } else {
        suggestion_for(entries, name, k + 1)
    }
}

/// The message and replacement for the class `name`, when the design system suggests another
/// spelling: for a collapse of several classes, the first of them takes the output and the
/// others are removed.
pub open spec fn canonical_fix(entries: Seq<SuggestionModel>, name: Seq<char>) -> Option<(Seq<char>, Seq<char>)> {
    match suggestion_for(entries, name, 0) {
        None => None,
        Some((input, output)) => if output == name {
            None
        } else if input.len() > 1 {
            Some((
                "The classes: \""@ + join_seq(input, ", "@) + "\" can be simplified to \""@ + output + "\"."@,
                if name == input[0] { output } else { Seq::empty() },
            ))
        } else {
            Some(("The class: \""@ + name + "\" can be simplified to \""@ + output + "\"."@, output))
        },
    }
}

/// The reports for the classes at `spans` of `s`.
pub open spec fn canonical_over(s: Seq<char>, spans: Seq<(int, int)>, entries: Seq<SuggestionModel>) -> Seq<(int, int, Seq<char>, Seq<char>)>
    decreases spans.len(),
{
    if spans.len() == 0 {
        Seq::empty()
    } else {
        let rest = canonical_over(s, spans.drop_last(), entries);
        let span = spans.last();
        match canonical_fix(entries, s.subrange(span.0, span.1)) {
            Some((message, replacement)) => rest.push((byte_offset(s, span.0), byte_offset(s, span.1), message, replacement)),
            None => rest,
        }
    }
}

fn suggestion_exec<'a>(entries: &'a Vec<(String, CanonicalClass)>, name: &str) -> (r: Option<&'a CanonicalClass>)
    ensures
        match r {
            Some(c) => suggestion_for(suggestion_views(entries@), name@, 0) == Some((string_list(c.input@), c.output@)),
            None => suggestion_for(suggestion_views(entries@), name@, 0) is None,
        },
{
    let ghost es = suggestion_views(entries@);
    let mut k: usize = 0;
    while k < entries.len()
        invariant
            es == suggestion_views(entries@),
            k <= entries@.len(),
            suggestion_for(es, name@, 0) == suggestion_for(es, name@, k as int),
        decreases entries.len() - k,
    {
        assert(es[k as int] == (entries@[k as int].0@, string_list(entries@[k as int].1.input@), entries@[k as int].1.output@));
        if str_eq(entries[k].0.as_str(), name) {
            return Some(&entries[k].1);
        }
        k = k + 1;
    }
    None
}

impl EnforceCanonicalClasses {
    /// Compiles the ignore patterns; the first that does not compile is the error.
    pub fn from_config(config: &EnforceCanonicalClassesConfig) -> (r: Result<EnforceCanonicalClasses, InvalidPattern>)
        ensures
            match r {
                Ok(rule) => first_invalid(crate::compile::texts(config.ignore@)) is None
                    && pattern_views(rule.ignore@) == crate::compile::texts(config.ignore@)
                    && rule.collapse == config.collapse && rule.logical == config.logical,
                Err(e) => first_invalid(crate::compile::texts(config.ignore@)) matches Some(k)
                    && e.pattern@ == crate::compile::texts(config.ignore@)[k],
            },
    {
        match compile_all(&config.ignore) {
            Ok(ignore) => Ok(EnforceCanonicalClasses { collapse: config.collapse, logical: config.logical, ignore }),
            Err(e) => Err(e),
        }
    }

    /// The classes of `content` to ask the design system about, sorted and each once.
    pub fn query_names(&self, literal: &TailwindLiteral, content: &str) -> (r: Vec<String>)
        ensures
            string_list(r@) == query_names_over(content@, class_spans(content@, 0), pattern_views(self.ignore@)),
    {
        let classes = class_runs(content, literal.keep_leading, literal.keep_trailing);
        let ghost s = content@;
        let ghost spans = class_spans(s, 0);
        let ghost ignore = pattern_views(self.ignore@);
        let mut names: Vec<String> = Vec::new();
        let mut i: usize = 0;
        proof {
            assert(string_list(names@) =~= query_names_over(s, spans.take(0), ignore));
        }
        while i < classes.len()
            invariant
                s == content@,
                ignore == pattern_views(self.ignore@),
                classes@.len() == spans.len(),
                forall|k: int| 0 <= k < classes@.len() ==> is_class_at(#[trigger] classes@[k], s, spans[k], literal.keep_leading, literal.keep_trailing),
                i <= classes@.len(),
                string_list(names@) == query_names_over(s, spans.take(i as int), ignore),
            decreases classes.len() - i,
        {
            let class = classes[i];
            assert(is_class_at(classes@[i as int], s, spans[i as int], literal.keep_leading, literal.keep_trailing));
            assert(spans.take(i + 1).drop_last() =~= spans.take(i as int));
            if !any_pattern_matches(&self.ignore, class.name) {
                let ghost before = string_list(names@);
                insert_sorted_exec(&mut names, class.name);
            }
            i = i + 1;
        }
        assert(spans.take(i as int) =~= spans);
        names
    }

    /// The classes of `content` spelled otherwise than the design system suggests, in order,
    /// given its suggestions by class.
    pub fn check(&self, literal: &TailwindLiteral, content: &str, suggestions: &Vec<(String, CanonicalClass)>) -> (r: Vec<CanonicalReport>)
        ensures
            r@.map_values(|x: CanonicalReport| (x.start as int, x.end as int, x.message@, x.replacement@))
                == canonical_over(content@, class_spans(content@, 0), suggestion_views(suggestions@)),
    {
        let classes = class_runs(content, literal.keep_leading, literal.keep_trailing);
        let ghost s = content@;
        let ghost spans = class_spans(s, 0);
        let ghost es = suggestion_views(suggestions@);
        let mut reports: Vec<CanonicalReport> = Vec::new();
        let mut i: usize = 0;
        proof {
            assert(reports@.map_values(|x: CanonicalReport| (x.start as int, x.end as int, x.message@, x.replacement@))
                =~= canonical_over(s, spans.take(0), es));
        }
        while i < classes.len()
            invariant
                s == content@,
                es == suggestion_views(suggestions@),
                classes@.len() == spans.len(),
                forall|k: int| 0 <= k < classes@.len() ==> is_class_at(#[trigger] classes@[k], s, spans[k], literal.keep_leading, literal.keep_trailing),
                i <= classes@.len(),
                reports@.map_values(|x: CanonicalReport| (x.start as int, x.end as int, x.message@, x.replacement@))
                    == canonical_over(s, spans.take(i as int), es),
            decreases classes.len() - i,
        {
            let class = classes[i];
            assert(is_class_at(classes@[i as int], s, spans[i as int], literal.keep_leading, literal.keep_trailing));
            assert(spans.take(i + 1).drop_last() =~= spans.take(i as int));
            if let Some(suggestion) = suggestion_exec(suggestions, class.name) {
                let output = suggestion.output.as_str();
                if !str_eq(output, class.name) {
                    let mut message = String::new();
                    let replacement: String;
                    if suggestion.input.len() > 1 {
                        push_str(&mut message, "The classes: \"");
                        let joined = join_strings(&suggestion.input, ", ");
                        push_str(&mut message, joined.as_str());
                        push_str(&mut message, "\" can be simplified to \"");
                        push_str(&mut message, output);
                        push_str(&mut message, "\".");
                        assert(string_views(suggestion.input@) == string_list(suggestion.input@));
                        replacement = if str_eq(class.name, suggestion.input[0].as_str()) { output.to_owned() } else { String::new() };
                    } else {
                        push_str(&mut message, "The class: \"");
                        push_str(&mut message, class.name);
                        push_str(&mut message, "\" can be simplified to \"");
                        push_str(&mut message, output);
                        push_str(&mut message, "\".");
                        replacement = output.to_owned();
                    }
                    let report = CanonicalReport { start: byte_offset_of(content, class.start), end: byte_offset_of(content, class.end), message, replacement };
                    let ghost before = reports@.map_values(|x: CanonicalReport| (x.start as int, x.end as int, x.message@, x.replacement@));
                    reports.push(report);
                    assert(reports@.map_values(|x: CanonicalReport| (x.start as int, x.end as int, x.message@, x.replacement@))
                        =~= before.push((byte_offset(s, class.start as int), byte_offset(s, class.end as int), report.message@, report.replacement@)));
                    assert(canonical_fix(es, class.name@) == Some((report.message@, report.replacement@)));
                }
            }
            i = i + 1;
        }
        assert(spans.take(i as int) =~= spans);
        reports
    }
}

/// The names asked about are sorted, each once.
pub proof fn query_names_are_sorted(s: Seq<char>, spans: Seq<(int, int)>, ignore: Seq<Seq<char>>)
    ensures
        crate::no_conflicting_classes::strictly_sorted(query_names_over(s, spans, ignore)),
    decreases spans.len(),
{
    if spans.len() > 0 {
        query_names_are_sorted(s, spans.drop_last(), ignore);
        let span = spans.last();
        let name = s.subrange(span.0, span.1);
        if !any_matches(ignore, name) {
            crate::no_conflicting_classes::insert_sorted_keeps_order(query_names_over(s, spans.drop_last(), ignore), name);
        }
    }
}

} // verus!
