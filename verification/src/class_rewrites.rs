//! Lints that rewrite one class at a time: deprecated utilities, the position of the important
//! mark, and the spelling of CSS variables in arbitrary values.

use vstd::prelude::*;
use crate::classes::{TailwindCandidate, ClassRun, candidate_layout, class_spans, is_class_at, lemma_layout_bounds, class_runs, without_char};
use crate::lint::TailwindLiteral;
use crate::rules::{DeprecatedClass, replacement, spec_replacement};
use crate::text::{byte_offset, byte_offset_of, chars_of, contains_char};
use crate::variable_syntax::{spec_to_shorthand, spec_to_variable, to_shorthand, to_variable};

verus! {

/// The part of a class name before its utility base: variants and leading marks.
pub open spec fn before_base_of(name: Seq<char>) -> Seq<char> {
    name.subrange(0, candidate_layout(name).base_start)
}

/// The utility base of a class name.
pub open spec fn base_of(name: Seq<char>) -> Seq<char> {
    name.subrange(candidate_layout(name).base_start, candidate_layout(name).base_end)
}

/// The part of a class name after its utility base: the trailing `!`, if any.
pub open spec fn after_base_of(name: Seq<char>) -> Seq<char> {
    name.subrange(candidate_layout(name).base_end, name.len() as int)
}

/// The variants of a class name, with the colon that ends them.
pub open spec fn variant_prefix_of(name: Seq<char>) -> Seq<char> {
    name.subrange(0, candidate_layout(name).segment_start)
}

/// A class name with its base replaced.
pub open spec fn with_base(name: Seq<char>, base: Seq<char>) -> Seq<char> {
    before_base_of(name) + base + after_base_of(name)
}

/// A replacement of the class at `start..end` (byte offsets in the class string).
pub struct ClassFix {
    pub start: usize,
    pub end: usize,
    pub replacement: String,
}

pub open spec fn class_fix_view(f: ClassFix) -> (int, int, Seq<char>) {
    (f.start as int, f.end as int, f.replacement@)
}

/// The fixes that `f` gives for the classes of `s` at `spans`, in order.
pub open spec fn fixes_over(s: Seq<char>, spans: Seq<(int, int)>, f: spec_fn(Seq<char>) -> Option<Seq<char>>) -> Seq<(int, int, Seq<char>)>
    decreases spans.len(),
{
    if spans.len() == 0 {
        Seq::empty()
    } else {
        let rest = fixes_over(s, spans.drop_last(), f);
        let span = spans.last();
        match f(s.subrange(span.0, span.1)) {
            Some(r) => rest.push((byte_offset(s, span.0), byte_offset(s, span.1), r)),
            None => rest,
        }
    }
}

pub proof fn lemma_candidate_parts(c: TailwindCandidate, name: Seq<char>)
    requires
        c.parts_of(name),
    ensures
        c.before_base@ == before_base_of(name),
        c.base@ == base_of(name),
        c.after_base@ == after_base_of(name),
        c.variant_prefix@ == variant_prefix_of(name),
        crate::classes::is_prefix_of(c.variant_prefix@, c.before_base@),
{
    lemma_layout_bounds(name);
    let layout = candidate_layout(name);
    assert(name.subrange(0, layout.base_start).subrange(0, layout.segment_start) =~= name.subrange(0, layout.segment_start));
}

/// What a deprecated class is reported with: its replacement, or nothing when the utility was
/// removed.
pub open spec fn deprecated_fix(name: Seq<char>) -> Option<Option<Seq<char>>> {
    match spec_replacement(base_of(name)) {
        Some(Some(base)) => Some(Some(with_base(name, base))),
        Some(None) => Some(None),
        None => None,
    }
}

/// A deprecated class at `start..end` (byte offsets): its replacement, or `None` when the utility was removed
/// and the upgrade guide has to be followed by hand.
pub struct DeprecatedReport {
    pub start: usize,
    pub end: usize,
    pub replacement: Option<String>,
}

pub open spec fn deprecated_view(d: DeprecatedReport) -> (int, int, Option<Seq<char>>) {
    (d.start as int, d.end as int, match d.replacement { Some(r) => Some(r@), None => None })
}

/// The deprecated classes among `spans`, in order.
pub open spec fn deprecated_over(s: Seq<char>, spans: Seq<(int, int)>) -> Seq<(int, int, Option<Seq<char>>)>
    decreases spans.len(),
{
    if spans.len() == 0 {
        Seq::empty()
    } else {
        let rest = deprecated_over(s, spans.drop_last());
        let span = spans.last();
        match deprecated_fix(s.subrange(span.0, span.1)) {
            Some(r) => rest.push((byte_offset(s, span.0), byte_offset(s, span.1), r)),
            None => rest,
        }
    }
}

/// Disallows the utilities that Tailwind v4 renamed or removed.
#[derive(Clone, Copy)]
pub struct NoDeprecatedClasses;

impl NoDeprecatedClasses {
    /// The deprecated classes of the class string `content`, in order.
    pub fn check(&self, literal: &TailwindLiteral, content: &str) -> (r: Vec<DeprecatedReport>)
        ensures
            r@.map_values(|d: DeprecatedReport| deprecated_view(d)) == deprecated_over(content@, class_spans(content@, 0)),
    {
        let classes = class_runs(content, literal.keep_leading, literal.keep_trailing);
        let ghost s = content@;
        let ghost spans = class_spans(s, 0);
        let mut reports: Vec<DeprecatedReport> = Vec::new();
        let mut i: usize = 0;
        proof {
            assert(reports@.map_values(|d: DeprecatedReport| deprecated_view(d)) =~= deprecated_over(s, spans.take(0)));
        }
        while i < classes.len()
            invariant
                s == content@,
                classes@.len() == spans.len(),
                forall|k: int| 0 <= k < classes@.len() ==> is_class_at(#[trigger] classes@[k], s, spans[k], literal.keep_leading, literal.keep_trailing),
                i <= classes@.len(),
                reports@.map_values(|d: DeprecatedReport| deprecated_view(d)) == deprecated_over(s, spans.take(i as int)),
            decreases classes.len() - i,
        {
            let class = classes[i];
            assert(is_class_at(classes@[i as int], s, spans[i as int], literal.keep_leading, literal.keep_trailing));
            assert(spans.take(i + 1).drop_last() =~= spans.take(i as int));
            let candidate = TailwindCandidate::parse(class.name);
            proof {
                lemma_candidate_parts(candidate, class.name@);
            }
            let ghost before = reports@.map_values(|d: DeprecatedReport| deprecated_view(d));
            match replacement(candidate.base) {
                Some(DeprecatedClass::Replacement(base)) => {
                    let fixed = candidate.replace_base(base.as_str());
                    reports.push(DeprecatedReport { start: byte_offset_of(content, class.start), end: byte_offset_of(content, class.end), replacement: Some(fixed) });
                    assert(reports@.map_values(|d: DeprecatedReport| deprecated_view(d)) =~= before.push((byte_offset(s, class.start as int), byte_offset(s, class.end as int), Some(fixed@))));
                },
                Some(DeprecatedClass::Removed) => {
                    reports.push(DeprecatedReport { start: byte_offset_of(content, class.start), end: byte_offset_of(content, class.end), replacement: None });
                    assert(reports@.map_values(|d: DeprecatedReport| deprecated_view(d)) =~= before.push((byte_offset(s, class.start as int), byte_offset(s, class.end as int), None)));
                },
                None => {},
            }
            i = i + 1;
        }
        assert(spans.take(spans.len() as int) =~= spans);
        reports
    }
}

/// Where the important mark goes: before the utility (the legacy position) or after it (the
/// recommended one).
#[derive(Clone, Copy, PartialEq, Eq, Structural)]
pub enum ImportantPosition {
    Legacy,
    Recommended,
}

/// The fix for a class whose important mark is in the other position.
pub open spec fn important_fix(name: Seq<char>, position: ImportantPosition) -> Option<Seq<char>> {
    let layout = candidate_layout(name);
    let correct = match position {
        ImportantPosition::Legacy => layout.important_at_start,
        ImportantPosition::Recommended => layout.important_at_end,
    };
    if correct || (!layout.important_at_start && !layout.important_at_end) {
        None
    } else {
        let to_end = position == ImportantPosition::Recommended;
        let prefix = variant_prefix_of(name);
        let before = before_base_of(name);
        Some(prefix + (if to_end { Seq::empty() } else { seq!['!'] })
            + without_char(before.subrange(prefix.len() as int, before.len() as int), '!')
            + base_of(name) + (if to_end { seq!['!'] } else { Seq::empty() }))
    }
}

/// Enforces one position of the important mark.
#[derive(Clone, Copy)]
pub struct EnforceConsistentImportantPosition {
    pub position: ImportantPosition,
}

impl EnforceConsistentImportantPosition {
    /// The default configuration: the recommended position, after the utility.
    pub fn new() -> (r: Self)
        ensures
            r.position == ImportantPosition::Recommended,
    {
        EnforceConsistentImportantPosition { position: ImportantPosition::Recommended }
    }

    /// The classes of `content` whose important mark is in the other position, each with the
    /// class rewritten; none when the class string holds no `!`.
    pub fn check(&self, literal: &TailwindLiteral, content: &str) -> (r: Vec<ClassFix>)
        ensures
            r@.map_values(|f: ClassFix| class_fix_view(f)) == if content@.contains('!') {
                fixes_over(content@, class_spans(content@, 0), |name: Seq<char>| important_fix(name, self.position))
            } else {
                Seq::empty()
            },
    {
        let mut fixes: Vec<ClassFix> = Vec::new();
        if !contains_char(content, '!') {
            assert(fixes@.map_values(|f: ClassFix| class_fix_view(f)) =~= Seq::<(int, int, Seq<char>)>::empty());
            return fixes;
        }
        let classes = class_runs(content, literal.keep_leading, literal.keep_trailing);
        let ghost s = content@;
        let ghost spans = class_spans(s, 0);
        let ghost f = |name: Seq<char>| important_fix(name, self.position);
        let to_end = self.position == ImportantPosition::Recommended;
        let mut i: usize = 0;
        proof {
            assert(fixes@.map_values(|f: ClassFix| class_fix_view(f)) =~= fixes_over(s, spans.take(0), f));
        }
        while i < classes.len()
            invariant
                s == content@,
                f == (|name: Seq<char>| important_fix(name, self.position)),
                to_end == (self.position == ImportantPosition::Recommended),
                classes@.len() == spans.len(),
                forall|k: int| 0 <= k < classes@.len() ==> is_class_at(#[trigger] classes@[k], s, spans[k], literal.keep_leading, literal.keep_trailing),
                i <= classes@.len(),
                fixes@.map_values(|f: ClassFix| class_fix_view(f)) == fixes_over(s, spans.take(i as int), f),
            decreases classes.len() - i,
        {
            let class = classes[i];
            assert(is_class_at(classes@[i as int], s, spans[i as int], literal.keep_leading, literal.keep_trailing));
            assert(spans.take(i + 1).drop_last() =~= spans.take(i as int));
            let candidate = TailwindCandidate::parse(class.name);
            proof {
                lemma_candidate_parts(candidate, class.name@);
            }
            let correct = match self.position {
                ImportantPosition::Legacy => candidate.important_at_start,
                ImportantPosition::Recommended => candidate.important_at_end,
            };
            let ghost before = fixes@.map_values(|f: ClassFix| class_fix_view(f));
            if !(correct || (!candidate.important_at_start && !candidate.important_at_end)) {
                let fixed = candidate.move_important(class.name, to_end);
                fixes.push(ClassFix { start: byte_offset_of(content, class.start), end: byte_offset_of(content, class.end), replacement: fixed });
                assert(fixes@.map_values(|f: ClassFix| class_fix_view(f)) =~= before.push((byte_offset(s, class.start as int), byte_offset(s, class.end as int), fixed@)));
            }
            i = i + 1;
        }
        assert(spans.take(spans.len() as int) =~= spans);
        fixes
    }
}

/// How CSS variables are written in arbitrary values: `fill-(--brand)` or
/// `fill-[var(--brand)]`.
#[derive(Clone, Copy, PartialEq, Eq, Structural)]
pub enum VariableSyntax {
    Shorthand,
    Variable,
}

/// The fix for a class whose base spells a CSS variable the other way. An arbitrary property
/// such as `[--foo:bar]` is left alone.
pub open spec fn variable_fix(name: Seq<char>, syntax: VariableSyntax) -> Option<Seq<char>> {
    let base = base_of(name);
    if base.contains(':') {
        None
    } else {
        let replaced = match syntax {
            VariableSyntax::Shorthand => spec_to_shorthand(base),
            VariableSyntax::Variable => spec_to_variable(base),
        };
        match replaced {
            Some(b) => Some(with_base(name, b)),
            None => None,
        }
    }
}

/// Whether `s` holds `--`.
pub open spec fn has_double_dash(s: Seq<char>) -> bool {
    exists|k: int| 0 <= k && k + 1 < s.len() && s[k] == '-' && #[trigger] s[k + 1] == '-'
}

fn contains_double_dash(s: &str) -> (r: bool)
    ensures
        r == has_double_dash(s@),
{
    let chars = chars_of(s);
    let mut k: usize = 0;
    while k < chars.len() && k + 1 < chars.len()
        invariant
            chars@ == s@,
            forall|j: int| 0 <= j < k && j + 1 < chars@.len() ==> !(chars@[j] == '-' && #[trigger] chars@[j + 1] == '-'),
        decreases chars.len() - k,
    {
        if chars[k] == '-' && chars[k + 1] == '-' {
            return true;
        }
        k = k + 1;
    }
    false
}

/// Enforces one spelling of CSS variables in arbitrary values.
#[derive(Clone, Copy)]
pub struct EnforceConsistentVariableSyntax {
    pub syntax: VariableSyntax,
}

impl EnforceConsistentVariableSyntax {
    /// The default configuration: the shorthand `(--name)` spelling.
    pub fn new() -> (r: Self)
        ensures
            r.syntax == VariableSyntax::Shorthand,
    {
        EnforceConsistentVariableSyntax { syntax: VariableSyntax::Shorthand }
    }

    /// The classes of `content` that spell a variable the other way, each rewritten; none when
    /// the class string holds no `--`.
    pub fn check(&self, literal: &TailwindLiteral, content: &str) -> (r: Vec<ClassFix>)
        ensures
            r@.map_values(|f: ClassFix| class_fix_view(f)) == if has_double_dash(content@) {
                fixes_over(content@, class_spans(content@, 0), |name: Seq<char>| variable_fix(name, self.syntax))
            } else {
                Seq::empty()
            },
    {
        let mut fixes: Vec<ClassFix> = Vec::new();
        if !contains_double_dash(content) {
            assert(fixes@.map_values(|f: ClassFix| class_fix_view(f)) =~= Seq::<(int, int, Seq<char>)>::empty());
            return fixes;
        }
        let classes = class_runs(content, literal.keep_leading, literal.keep_trailing);
        let ghost s = content@;
        let ghost spans = class_spans(s, 0);
        let ghost f = |name: Seq<char>| variable_fix(name, self.syntax);
        let mut i: usize = 0;
        proof {
            assert(fixes@.map_values(|f: ClassFix| class_fix_view(f)) =~= fixes_over(s, spans.take(0), f));
        }
        while i < classes.len()
            invariant
                s == content@,
                f == (|name: Seq<char>| variable_fix(name, self.syntax)),
                classes@.len() == spans.len(),
                forall|k: int| 0 <= k < classes@.len() ==> is_class_at(#[trigger] classes@[k], s, spans[k], literal.keep_leading, literal.keep_trailing),
                i <= classes@.len(),
                fixes@.map_values(|f: ClassFix| class_fix_view(f)) == fixes_over(s, spans.take(i as int), f),
            decreases classes.len() - i,
        {
            let class = classes[i];
            assert(is_class_at(classes@[i as int], s, spans[i as int], literal.keep_leading, literal.keep_trailing));
            assert(spans.take(i + 1).drop_last() =~= spans.take(i as int));
            let candidate = TailwindCandidate::parse(class.name);
            proof {
                lemma_candidate_parts(candidate, class.name@);
            }
            let ghost before = fixes@.map_values(|f: ClassFix| class_fix_view(f));
            if !contains_char(candidate.base, ':') {
                let replaced = match self.syntax {
                    VariableSyntax::Shorthand => to_shorthand(candidate.base),
                    VariableSyntax::Variable => to_variable(candidate.base),
                };
                match replaced {
                    Some(base) => {
                        let fixed = candidate.replace_base(base.as_str());
                        fixes.push(ClassFix { start: byte_offset_of(content, class.start), end: byte_offset_of(content, class.end), replacement: fixed });
                        assert(fixes@.map_values(|f: ClassFix| class_fix_view(f)) =~= before.push((byte_offset(s, class.start as int), byte_offset(s, class.end as int), fixed@)));
                    },
                    None => {},
                }
            }
            i = i + 1;
        }
        assert(spans.take(spans.len() as int) =~= spans);
        fixes
    }
}

} // verus!
