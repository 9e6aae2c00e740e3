//! Restricted classes: the classes that match a configured pattern, reported with a message and
//! an optional replacement, both of which may use the pattern's groups.

use vstd::prelude::*;
use crate::classes::{class_spans, is_class_at, class_runs};
use crate::lint::TailwindLiteral;
use crate::pattern::{ClassPattern, InvalidPattern, expand_match, pattern_captures, regex_compiles, regex_expansion, regex_matches};
use crate::text::{byte_offset, byte_offset_of, push_str};

verus! {

/// A restriction as configured: a pattern alone, or with a fix and a message.
pub enum RestrictionConfig {
    Pattern(String),
    Detailed { pattern: String, fix: Option<String>, message: Option<String> },
}

/// The configuration: the restrictions, tried in order.
pub struct NoRestrictedClassesConfig {
    pub restrict: Vec<RestrictionConfig>,
}

/// A compiled restriction.
pub struct Restriction {
    pub pattern: ClassPattern,
    pub fix: Option<String>,
    pub message: Option<String>,
}

/// Disallows the classes that match one of the configured patterns.
pub struct NoRestrictedClasses {
    pub restrictions: Vec<Restriction>,
}

/// A restricted class: where it is (byte offsets), the message, and the replacement if the restriction has a fix.
pub struct RestrictedReport {
    pub start: usize,
    pub end: usize,
    pub message: String,
    pub fix: Option<String>,
}

/// A restriction's pattern, fix and message.
pub type RestrictionModel = (Seq<char>, Option<Seq<char>>, Option<Seq<char>>);

pub open spec fn opt_view(o: Option<String>) -> Option<Seq<char>> {
    match o {
        Some(t) => Some(t@),
        None => None,
    }
}

pub open spec fn restriction_view(r: Restriction) -> RestrictionModel {
    (r.pattern@, opt_view(r.fix), opt_view(r.message))
}

pub open spec fn restriction_views(rs: Seq<Restriction>) -> Seq<RestrictionModel> {
    rs.map_values(|r: Restriction| restriction_view(r))
}

pub open spec fn config_view(c: RestrictionConfig) -> RestrictionModel {
    match c {
        RestrictionConfig::Pattern(p) => (p@, None, None),
        RestrictionConfig::Detailed { pattern, fix, message } => (pattern@, opt_view(fix), opt_view(message)),
    }
}

pub open spec fn config_views(cs: Seq<RestrictionConfig>) -> Seq<RestrictionModel> {
    cs.map_values(|c: RestrictionConfig| config_view(c))
}

/// The first configured restriction whose pattern does not compile.
pub open spec fn first_invalid_restriction(cs: Seq<RestrictionModel>) -> Option<int>
    decreases cs.len(),
{
    if cs.len() == 0 {
        None
    } else {
        match first_invalid_restriction(cs.drop_last()) {
            Some(k) => Some(k),
            None => if regex_compiles(cs.last().0) { None } else { Some(cs.len() - 1) },
        }
    }
}

/// The first restriction from `k` on whose pattern matches `name`.
pub open spec fn first_restriction(rs: Seq<RestrictionModel>, name: Seq<char>, k: int) -> Option<int>
    decreases rs.len() - k,
{
    if k < 0 || k >= rs.len() {
        None
    } else if regex_matches(rs[k].0, name) {
        Some(k)
    } else {
        first_restriction(rs, name, k + 1)
    }
}

/// The message and fix for a class that the first matching restriction restricts: its message
/// (or `Restricted class: "name".`) and its fix, with the match's groups put in.
pub open spec fn restricted_class(rs: Seq<RestrictionModel>, name: Seq<char>) -> Option<(Seq<char>, Option<Seq<char>>)> {
    match first_restriction(rs, name, 0) {
        None => None,
        Some(k) => {
            let (pattern, fix, message) = rs[k];
            Some((
                match message {
                    Some(template) => regex_expansion(pattern, name, template),
                    None => "Restricted class: \""@ + name + "\"."@,
                },
                match fix {
                    Some(template) => Some(regex_expansion(pattern, name, template)),
                    None => None,
                },
            ))
        },
    }
}

/// The report for a restricted class between `start` and `end`.
pub open spec fn restricted_entry(rs: Seq<RestrictionModel>, name: Seq<char>, start: int, end: int) -> (int, int, Seq<char>, Option<Seq<char>>) {
    let (message, fix) = restricted_class(rs, name)->0;
    (start, end, message, fix)
}

/// The reports for the classes at `spans` of `s`.
pub open spec fn restricted_over(s: Seq<char>, spans: Seq<(int, int)>, rs: Seq<RestrictionModel>) -> Seq<(int, int, Seq<char>, Option<Seq<char>>)>
    decreases spans.len(),
{
    if spans.len() == 0 {
        Seq::empty()
    } else {
        let rest = restricted_over(s, spans.drop_last(), rs);
        let span = spans.last();
        match restricted_class(rs, s.subrange(span.0, span.1)) {
            Some((message, fix)) => rest.push((byte_offset(s, span.0), byte_offset(s, span.1), message, fix)),
            None => rest,
        }
    }
}

pub open spec fn report_view(r: RestrictedReport) -> (int, int, Seq<char>, Option<Seq<char>>) {
    (r.start as int, r.end as int, r.message@, opt_view(r.fix))
}

fn copy_text(o: &Option<String>) -> (r: Option<String>)
    ensures
        opt_view(r) == opt_view(*o),
{
    match o {
        Some(t) => Some(t.as_str().to_owned()),
        None => None,
    }
}

impl NoRestrictedClasses {
    /// Compiles the configured restrictions, in order; the first pattern that does not compile
    /// is the error.
    pub fn from_config(config: &NoRestrictedClassesConfig) -> (r: Result<NoRestrictedClasses, InvalidPattern>)
        ensures
            match r {
                Ok(rule) => first_invalid_restriction(config_views(config.restrict@)) is None
                    && restriction_views(rule.restrictions@) == config_views(config.restrict@),
                Err(e) => first_invalid_restriction(config_views(config.restrict@)) matches Some(k)
                    && e.pattern@ == config_views(config.restrict@)[k].0,
            },
    {
        let ghost cs = config_views(config.restrict@);
        let mut restrictions: Vec<Restriction> = Vec::new();
        let mut i: usize = 0;
        while i < config.restrict.len()
            invariant
                cs == config_views(config.restrict@),
                i <= cs.len(),
                first_invalid_restriction(cs.take(i as int)) is None,
                restriction_views(restrictions@) == cs.take(i as int),
            decreases config.restrict.len() - i,
        {
            assert(cs.take(i + 1).drop_last() =~= cs.take(i as int));
            assert(cs[i as int] == config_view(config.restrict@[i as int]));
            let (pattern, fix, message) = match &config.restrict[i] {
                RestrictionConfig::Pattern(p) => (p.as_str(), None, None),
                RestrictionConfig::Detailed { pattern, fix, message } => (pattern.as_str(), copy_text(fix), copy_text(message)),
            };
            match ClassPattern::new(pattern) {
                Ok(compiled) => {
                    let ghost before = restriction_views(restrictions@);
                    let restriction = Restriction { pattern: compiled, fix, message };
                    restrictions.push(restriction);
                    assert(restriction_views(restrictions@) =~= before.push(cs[i as int]));
                    assert(cs.take(i + 1) =~= cs.take(i as int).push(cs[i as int]));
                },
                Err(e) => {
                    assert(first_invalid_restriction(cs.take(i + 1)) == Some(i as int));
                    proof {
                        lemma_first_invalid_restriction_prefix(cs, i + 1);
                    }
                    return Err(e);
                },
            }
            i = i + 1;
        }
        assert(cs.take(i as int) =~= cs);
        Ok(NoRestrictedClasses { restrictions })
    }

    /// The restricted classes of the class string `content`, in order.
    pub fn check(&self, literal: &TailwindLiteral, content: &str) -> (r: Vec<RestrictedReport>)
        ensures
            r@.map_values(|x: RestrictedReport| report_view(x))
                == restricted_over(content@, class_spans(content@, 0), restriction_views(self.restrictions@)),
    {
        let classes = class_runs(content, literal.keep_leading, literal.keep_trailing);
        let ghost s = content@;
        let ghost spans = class_spans(s, 0);
        let ghost rs = restriction_views(self.restrictions@);
        let mut reports: Vec<RestrictedReport> = Vec::new();
        let mut i: usize = 0;
        proof {
            assert(reports@.map_values(|x: RestrictedReport| report_view(x)) =~= restricted_over(s, spans.take(0), rs));
        }
        while i < classes.len()
            invariant
                s == content@,
                rs == restriction_views(self.restrictions@),
                classes@.len() == spans.len(),
                forall|k: int| 0 <= k < classes@.len() ==> is_class_at(#[trigger] classes@[k], s, spans[k], literal.keep_leading, literal.keep_trailing),
                i <= classes@.len(),
                reports@.map_values(|x: RestrictedReport| report_view(x)) == restricted_over(s, spans.take(i as int), rs),
            decreases classes.len() - i,
        {
            let class = classes[i];
            assert(is_class_at(classes@[i as int], s, spans[i as int], literal.keep_leading, literal.keep_trailing));
            assert(spans.take(i + 1).drop_last() =~= spans.take(i as int));
            let ghost before = reports@.map_values(|x: RestrictedReport| report_view(x));
            let mut k: usize = 0;
            let mut found = false;
            while k < self.restrictions.len() && !found
                invariant
                    s == content@,
                    rs == restriction_views(self.restrictions@),
                    k <= rs.len(),
                    !found ==> first_restriction(rs, class.name@, 0) == first_restriction(rs, class.name@, k as int),
                    !found ==> reports@.map_values(|x: RestrictedReport| report_view(x)) == before,
                    found ==> reports@.map_values(|x: RestrictedReport| report_view(x)) == before.push(
                        restricted_entry(rs, class.name@, byte_offset(s, class.start as int), byte_offset(s, class.end as int))),
                    found ==> restricted_class(rs, class.name@) is Some,
                decreases rs.len() - k + (if found { 0int } else { 1int }),
            {
                let restriction = &self.restrictions[k];
                assert(rs[k as int] == restriction_view(self.restrictions@[k as int]));
                match pattern_captures(&restriction.pattern, class.name) {
                    Some(m) => {
                        assert(first_restriction(rs, class.name@, k as int) == Some(k as int));
                        let message = match &restriction.message {
                            Some(template) => expand_match(&m, template.as_str()),
                            None => {
                                let mut text = String::new();
                                push_str(&mut text, "Restricted class: \"");
                                push_str(&mut text, class.name);
                                push_str(&mut text, "\".");
                                assert(text@ =~= "Restricted class: \""@ + class.name@ + "\"."@);
                                text
                            },
                        };
                        let fix = match &restriction.fix {
                            Some(template) => Some(expand_match(&m, template.as_str())),
                            None => None,
                        };
                        let report = RestrictedReport { start: byte_offset_of(content, class.start), end: byte_offset_of(content, class.end), message, fix };
                        reports.push(report);
                        assert(reports@.map_values(|x: RestrictedReport| report_view(x)) =~= before.push(report_view(report)));
                        found = true;
                    },
                    None => {
                        k = k + 1;
                    },
                }
            }
            proof {
                if !found {
                    assert(first_restriction(rs, class.name@, k as int) is None);
                }
            }
            assert(restricted_over(s, spans.take(i + 1), rs) =~= if restricted_class(rs, class.name@) is Some {
                restricted_over(s, spans.take(i as int), rs).push(restricted_entry(rs, class.name@, byte_offset(s, class.start as int), byte_offset(s, class.end as int)))
            } else {
                restricted_over(s, spans.take(i as int), rs)
            });
            i = i + 1;
        }
        assert(spans.take(i as int) =~= spans);
        reports
    }
}

pub proof fn lemma_first_invalid_restriction_prefix(cs: Seq<RestrictionModel>, n: int)
    requires
        0 <= n <= cs.len(),
        first_invalid_restriction(cs.take(n)) is Some,
    ensures
        first_invalid_restriction(cs) == first_invalid_restriction(cs.take(n)),
    decreases cs.len() - n,
{
    if n < cs.len() {
        assert(cs.take(n + 1).drop_last() =~= cs.take(n));
        lemma_first_invalid_restriction_prefix(cs, n + 1);
    } else {
        assert(cs.take(n) =~= cs);
    }
}

} // verus!
