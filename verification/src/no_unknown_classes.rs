//! Unknown classes: the classes of a class string that the design system does not know, less
//! the ignored ones, component classes when asked, and the `group`/`peer` markers.

use vstd::prelude::*;
use crate::class_rewrites::base_of;
use crate::classes::{class_spans, is_class_at, class_runs};
use crate::collections::name_set_contents;
use crate::design_system::DesignSystem;
use crate::lint::TailwindLiteral;
use crate::pattern::{ClassPattern, InvalidPattern, any_matches, any_pattern_matches, compile_all, first_invalid, pattern_views};
use crate::rules::{is_marker_class, spec_is_marker_base};
use crate::text::{byte_offset, byte_offset_of, str_eq, views};

verus! {

/// The configuration: patterns of classes to leave alone, and whether a class the stylesheet
/// defines as a component is known.
pub struct NoUnknownClassesConfig {
    pub ignore: Vec<String>,
    pub detect_component_classes: bool,
}

/// Disallows classes that the design system does not know.
pub struct NoUnknownClasses {
    pub ignore: Vec<ClassPattern>,
    pub detect_component_classes: bool,
}

/// An unknown class: where it is in the class string, in bytes.
pub struct UnknownReport {
    pub start: usize,
    pub end: usize,
}

/// Whether the class `name` is reported: the design system does not know it, no ignore pattern
/// matches it, it is not a component class the rule is asked to accept, and it is no marker.
pub open spec fn reported_unknown(name: Seq<char>, unknown: Seq<Seq<char>>, ignore: Seq<Seq<char>>, detect: bool, design: DesignSystem) -> bool {
    &&& unknown.contains(name)
    &&& !any_matches(ignore, name)
    &&& !(detect && name_set_contents(design.component_classes).contains(name))
    &&& !spec_is_marker_base(base_of(name))
}

/// The reports for the classes at `spans` of `s`.
pub open spec fn unknown_over(s: Seq<char>, spans: Seq<(int, int)>, unknown: Seq<Seq<char>>, ignore: Seq<Seq<char>>, detect: bool, design: DesignSystem) -> Seq<(int, int)>
    decreases spans.len(),
{
    if spans.len() == 0 {
        Seq::empty()
    } else {
        let rest = unknown_over(s, spans.drop_last(), unknown, ignore, detect, design);
        let span = spans.last();
        if reported_unknown(s.subrange(span.0, span.1), unknown, ignore, detect, design) {
            rest.push((byte_offset(s, span.0), byte_offset(s, span.1)))
        } else {
            rest
        }
    }
}

fn listed(names: &Vec<&str>, name: &str) -> (r: bool)
    ensures
        r == views(names@).contains(name@),
{
    let mut k: usize = 0;
    while k < names.len()
        invariant
            k <= names@.len(),
            forall|j: int| 0 <= j < k ==> views(names@)[j] != name@,
        decreases names.len() - k,
    {
        if str_eq(names[k], name) {
            assert(views(names@)[k as int] == name@);
            return true;
        }
        k = k + 1;
    }
    false
}

impl NoUnknownClasses {
    /// Compiles the ignore patterns; the first that does not compile is the error.
    pub fn from_config(config: &NoUnknownClassesConfig) -> (r: Result<NoUnknownClasses, InvalidPattern>)
        ensures
            match r {
                Ok(rule) => first_invalid(crate::compile::texts(config.ignore@)) is None
                    && pattern_views(rule.ignore@) == crate::compile::texts(config.ignore@)
                    && rule.detect_component_classes == config.detect_component_classes,
                Err(e) => first_invalid(crate::compile::texts(config.ignore@)) matches Some(k)
                    && e.pattern@ == crate::compile::texts(config.ignore@)[k],
            },
    {
        match compile_all(&config.ignore) {
            Ok(ignore) => Ok(NoUnknownClasses { ignore, detect_component_classes: config.detect_component_classes }),
            Err(e) => Err(e),
        }
    }

    /// The unknown classes of the class string `content`, in order, given the names among them
    /// that the design system does not know.
    pub fn check(&self, literal: &TailwindLiteral, content: &str, design: &DesignSystem, unknown: &Vec<&str>) -> (r: Vec<UnknownReport>)
        ensures
            r@.map_values(|x: UnknownReport| (x.start as int, x.end as int))
                == unknown_over(content@, class_spans(content@, 0), views(unknown@), pattern_views(self.ignore@),
                    self.detect_component_classes, *design),
    {
        let classes = class_runs(content, literal.keep_leading, literal.keep_trailing);
        let ghost s = content@;
        let ghost spans = class_spans(s, 0);
        let ghost ignore = pattern_views(self.ignore@);
        let mut reports: Vec<UnknownReport> = Vec::new();
        let mut i: usize = 0;
        proof {
            assert(reports@.map_values(|x: UnknownReport| (x.start as int, x.end as int))
                =~= unknown_over(s, spans.take(0), views(unknown@), ignore, self.detect_component_classes, *design));
        }
        while i < classes.len()
            invariant
                s == content@,
                ignore == pattern_views(self.ignore@),
                classes@.len() == spans.len(),
                forall|k: int| 0 <= k < classes@.len() ==> is_class_at(#[trigger] classes@[k], s, spans[k], literal.keep_leading, literal.keep_trailing),
                i <= classes@.len(),
                reports@.map_values(|x: UnknownReport| (x.start as int, x.end as int))
                    == unknown_over(s, spans.take(i as int), views(unknown@), ignore, self.detect_component_classes, *design),
            decreases classes.len() - i,
        {
            let class = classes[i];
            assert(is_class_at(classes@[i as int], s, spans[i as int], literal.keep_leading, literal.keep_trailing));
            assert(spans.take(i + 1).drop_last() =~= spans.take(i as int));
            let skip = !listed(unknown, class.name) || any_pattern_matches(&self.ignore, class.name)
                || (self.detect_component_classes && design.has_component_class(class.name))
                || is_marker_class(class.name);
            if !skip {
                let ghost before = reports@.map_values(|x: UnknownReport| (x.start as int, x.end as int));
                reports.push(UnknownReport { start: byte_offset_of(content, class.start), end: byte_offset_of(content, class.end) });
                assert(reports@.map_values(|x: UnknownReport| (x.start as int, x.end as int)) =~= before.push((byte_offset(s, class.start as int), byte_offset(s, class.end as int))));
            }
            i = i + 1;
        }
        assert(spans.take(i as int) =~= spans);
        reports
    }
}

} // verus!
