//! Consistent line wrapping of class strings: one line when it fits, else a template literal
//! with the classes wrapped at the print width, a number of classes per line, and a break
//! between groups of classes that share their variants.

use vstd::prelude::*;
use vstd::string::StrSliceExecFns;
use vstd::utf8::encode_utf8;
use crate::classes::{ClassRun, class_spans, is_class_at, class_runs, tailwind_variants, variant_colons};
use crate::lint::TailwindLiteral;
use crate::segment::pieces;
use crate::text::{lemma_encode_concat, chars_of, push_char, push_str, str_eq, views};

verus! {

/// How groups of classes with different variants are separated.
#[derive(Clone, Copy, PartialEq, Eq, Structural)]
pub enum GroupSeparator {
    EmptyLine,
    NewLine,
    Never,
}

/// The line break written between lines.
#[derive(Clone, Copy, PartialEq, Eq, Structural)]
pub enum LineBreakStyle {
    Unix,
    Windows,
}

/// The indentation added for the wrapped lines.
#[derive(Clone, Copy, PartialEq, Eq, Structural)]
pub enum Indent {
    Spaces(u32),
    Tab,
}

/// The options of the line wrapping lint. A print width or a number of classes per line of 0
/// sets no limit.
#[derive(Clone, Copy)]
pub struct EnforceConsistentLineWrappingConfig {
    pub print_width: usize,
    pub classes_per_line: usize,
    pub group: GroupSeparator,
    pub prefer_single_line: bool,
    pub indent: Indent,
    pub tab_width: usize,
    pub line_break_style: LineBreakStyle,
}

impl EnforceConsistentLineWrappingConfig {
    /// The defaults: 80 columns, no limit on classes per line, groups on new lines, two spaces
    /// of indentation, a tab one column wide, Unix line breaks.
    pub fn new() -> (r: Self)
        ensures
            r.print_width == 80,
            r.classes_per_line == 0,
            r.group == GroupSeparator::NewLine,
            !r.prefer_single_line,
            r.indent == Indent::Spaces(2),
            r.tab_width == 1,
            r.line_break_style == LineBreakStyle::Unix,
    {
        EnforceConsistentLineWrappingConfig {
            print_width: 80,
            classes_per_line: 0,
            group: GroupSeparator::NewLine,
            prefer_single_line: false,
            indent: Indent::Spaces(2),
            tab_width: 1,
            line_break_style: LineBreakStyle::Unix,
        }
    }
}

/// Enforces consistent line wrapping of class strings.
#[derive(Clone, Copy)]
pub struct EnforceConsistentLineWrapping {
    pub config: EnforceConsistentLineWrappingConfig,
}

/// The node a class string was found in, as far as wrapping reads it.
pub enum WrapNode<'a> {
    /// A string literal, with its source text (quotes included) and whether it stands inside a
    /// JSX attribute.
    String { source: &'a str, in_jsx: bool },
    /// A template element, with the source text of its template literal when that template has
    /// no interpolation.
    Template { literal_source: Option<&'a str> },
}

/// What a fix replaces: the class string itself, or the whole string or template node.
#[derive(Clone, Copy, PartialEq, Eq, Structural)]
pub enum WrapTarget {
    Content,
    Node,
}

/// A wrong wrapping and its fix.
pub struct LineWrapReport {
    pub target: WrapTarget,
    pub replacement: String,
}

/// The UTF-8 length of a text, as `str::len` gives it.
pub open spec fn byte_len(s: Seq<char>) -> int {
    (encode_utf8(s).len() as usize) as int
}

/// The columns a text takes, a tab counting `tab_width`.
pub open spec fn visual_width(s: Seq<char>, tab_width: int) -> int
    decreases s.len(),
{
    if s.len() == 0 {
        0
    } else {
        visual_width(s.drop_last(), tab_width) + if s.last() == '\t' { tab_width } else { 1 }
    }
}

/// `parts` joined with `sep` between consecutive elements.
pub open spec fn join_seq(parts: Seq<Seq<char>>, sep: Seq<char>) -> Seq<char>
    decreases parts.len(),
{
    if parts.len() == 0 {
        Seq::empty()
    } else if parts.len() == 1 {
        parts[0]
    } else {
        join_seq(parts.drop_last(), sep) + sep + parts.last()
    }
}

/// The variants of a class name, joined with `:`.
pub open spec fn group_of(name: Seq<char>) -> Seq<char> {
    join_seq(pieces(name, variant_colons(name), 0).drop_last(), seq![':'])
}

/// The lines after placing the class `k`: a new line (and an empty one before it) when the
/// group changes, a new line when the class does not fit on the current one.
pub open spec fn wrap_step(cfg: EnforceConsistentLineWrappingConfig, st: (Seq<Seq<char>>, int), names: Seq<Seq<char>>, k: int, indent_width: int) -> (Seq<Seq<char>>, int) {
    let group_changed = k > 0 && group_of(names[k]) != group_of(names[k - 1]);
    let (lines, count) = if group_changed && cfg.group != GroupSeparator::Never {
        let with_gap = if cfg.group == GroupSeparator::EmptyLine { st.0.push(Seq::empty()) } else { st.0 };
        (with_gap.push(Seq::empty()), 0)
    } else {
        st
    };
    let line = lines.last();
    let next_width = indent_width + byte_len(line) + (if line.len() > 0 { 1int } else { 0int }) + byte_len(names[k]);
    let over_width = cfg.print_width > 0 && next_width > cfg.print_width;
    let over_count = cfg.classes_per_line > 0 && count >= cfg.classes_per_line;
    let (lines, count) = if line.len() > 0 && (over_width || over_count) { (lines.push(Seq::empty()), 0) } else { (lines, count) };
    let line = lines.last();
    let placed = if line.len() > 0 { line.push(' ') + names[k] } else { names[k] };
    (lines.update(lines.len() - 1, placed), count + 1)
}

pub open spec fn wrap_fold(cfg: EnforceConsistentLineWrappingConfig, names: Seq<Seq<char>>, indent_width: int, n: int) -> (Seq<Seq<char>>, int)
    decreases n,
{
    if n <= 0 {
        (seq![Seq::empty()], 0)
    } else {
        wrap_step(cfg, wrap_fold(cfg, names, indent_width, n - 1), names, n - 1, indent_width)
    }
}

/// The wrapped lines of the classes `names`, for lines indented by `indent_width` columns.
pub open spec fn spec_wrap_lines(cfg: EnforceConsistentLineWrappingConfig, names: Seq<Seq<char>>, indent_width: int) -> Seq<Seq<char>> {
    wrap_fold(cfg, names, indent_width, names.len() as int).0
}

/// The spaces and tabs that start `s`.
pub open spec fn leading_blanks(s: Seq<char>) -> int
    decreases s.len(),
{
    if s.len() > 0 && (s[0] == ' ' || s[0] == '\t') { 1 + leading_blanks(s.drop_first()) } else { 0 }
}

/// `n` spaces.
pub open spec fn spaces(n: nat) -> Seq<char> {
    Seq::new(n, |i: int| ' ')
}

/// The classes of a class string, by name.
pub open spec fn class_names(s: Seq<char>) -> Seq<Seq<char>> {
    class_spans(s, 0).map_values(|span: (int, int)| s.subrange(span.0, span.1))
}

/// Whether consecutive classes of `names` differ in their variants.
pub open spec fn has_group_change(names: Seq<Seq<char>>) -> bool {
    exists|k: int| 0 < k < names.len() && group_of(#[trigger] names[k]) != group_of(names[k - 1])
}

/// The text of the wrapped template: each nonempty line indented by `inner`, lines separated by
/// `line_break`, the closing backtick indented by `outer`.
pub open spec fn wrapped_template(lines: Seq<Seq<char>>, inner: Seq<char>, outer: Seq<char>, line_break: Seq<char>) -> Seq<char> {
    let body = join_seq(lines.map_values(|line: Seq<char>| if line.len() == 0 { line } else { inner + line }), line_break);
    seq!['`'] + line_break + body + line_break + outer + seq!['`']
}

impl EnforceConsistentLineWrapping {
    /// Whether the classes stay on one line: they fit the print width from `start_column` on,
    /// they are not too many, and they form one group (or one line is preferred).
    pub open spec fn use_single_line(&self, names: Seq<Seq<char>>, start_column: int) -> bool {
        let cfg = self.config;
        let within_width = cfg.print_width == 0 || start_column + byte_len(join_seq(names, seq![' '])) <= cfg.print_width;
        let within_count = cfg.classes_per_line == 0 || names.len() <= cfg.classes_per_line;
        let has_groups = cfg.group != GroupSeparator::Never && has_group_change(names);
        within_width && within_count && (!has_groups || cfg.prefer_single_line)
    }

    /// The report for the class string `content`, which stands after `line_before` on its line,
    /// in the node `node`.
    pub open spec fn spec_check(&self, literal: TailwindLiteral, content: Seq<char>, line_before: Seq<char>, node: WrapNode) -> Option<(WrapTarget, Seq<char>)> {
        let cfg = self.config;
        let names = class_names(content);
        if literal.keep_leading || literal.keep_trailing || names.len() == 0 {
            None
        } else if self.use_single_line(names, visual_width(line_before, cfg.tab_width as int)) {
            let single = join_seq(names, seq![' ']);
            if content == single { None } else { Some((WrapTarget::Content, single)) }
        } else {
            let line_break = match cfg.line_break_style {
                LineBreakStyle::Unix => seq!['\n'],
                LineBreakStyle::Windows => seq!['\r', '\n'],
            };
            let source = line_before + content;
            let outer = source.subrange(0, leading_blanks(source));
            let extra = match cfg.indent {
                Indent::Spaces(count) => spaces(count as nat),
                Indent::Tab => seq!['\t'],
            };
            let inner = outer + extra;
            let lines = spec_wrap_lines(cfg, names, visual_width(inner, cfg.tab_width as int));
            let template = wrapped_template(lines, inner, outer, line_break);
            match node {
                WrapNode::String { source, in_jsx } => {
                    let replacement = if in_jsx { seq!['{'] + template + seq!['}'] } else { template };
                    if source@ != replacement { Some((WrapTarget::Node, replacement)) } else { None }
                },
                WrapNode::Template { literal_source } => match literal_source {
                    Some(before) => if before@ != template { Some((WrapTarget::Node, template)) } else { None },
                    None => None,
                },
            }
        }
    }
}

/// A width that may exceed `usize`: `Some` with the width, or `None` when it is larger.
pub open spec fn width_is(w: Option<usize>, x: int) -> bool {
    match w {
        Some(v) => v == x,
        None => x > usize::MAX,
    }
}

pub proof fn lemma_visual_width_monotone(s: Seq<char>, i: int, tab_width: int)
    requires
        0 <= i <= s.len(),
        tab_width >= 0,
    ensures
        0 <= visual_width(s.take(i), tab_width) <= visual_width(s, tab_width),
    decreases s.len() - i,
{
    if i < s.len() {
        lemma_visual_width_monotone(s, i + 1, tab_width);
        assert(s.take(i + 1).drop_last() =~= s.take(i));
    } else {
        assert(s.take(i) =~= s);
    }
    lemma_visual_width_nonneg(s.take(i), tab_width);
}

pub proof fn lemma_visual_width_nonneg(s: Seq<char>, tab_width: int)
    requires
        tab_width >= 0,
    ensures
        visual_width(s, tab_width) >= 0,
    decreases s.len(),
{
    if s.len() > 0 {
        lemma_visual_width_nonneg(s.drop_last(), tab_width);
    }
}

/// The columns `s` takes, if they fit in `usize`.
fn visual_width_exec(s: &str, tab_width: usize) -> (r: Option<usize>)
    ensures
        width_is(r, visual_width(s@, tab_width as int)),
{
    let chars = chars_of(s);
    let mut width: usize = 0;
    let mut i: usize = 0;
    while i < chars.len()
        invariant
            chars@ == s@,
            i <= chars@.len(),
            width == visual_width(s@.take(i as int), tab_width as int),
        decreases chars.len() - i,
    {
        assert(s@.take(i + 1).drop_last() =~= s@.take(i as int));
        let step: usize = if chars[i] == '\t' { tab_width } else { 1 };
        match width.checked_add(step) {
            Some(w) => {
                width = w;
            },
            None => {
                proof {
                    lemma_visual_width_monotone(s@, i + 1, tab_width as int);
                }
                return None;
            },
        }
        i = i + 1;
    }
    assert(s@.take(i as int) =~= s@);
    Some(width)
}

/// `parts` joined with `sep`.
fn join_strs(parts: &Vec<&str>, sep: &str) -> (r: String)
    ensures
        r@ == join_seq(views(parts@), sep@),
{
    let ghost all = views(parts@);
    let mut out = String::new();
    let mut i: usize = 0;
    while i < parts.len()
        invariant
            all == views(parts@),
            i <= parts@.len(),
            out@ == join_seq(all.take(i as int), sep@),
        decreases parts.len() - i,
    {
        assert(all.take(i + 1).drop_last() =~= all.take(i as int));
        if i > 0 {
            push_str(&mut out, sep);
        } else {
            assert(all.take(0) =~= Seq::<Seq<char>>::empty());
        }
        push_str(&mut out, parts[i]);
        i = i + 1;
    }
    assert(all.take(i as int) =~= all);
    out
}

/// The texts of `parts`.
pub open spec fn string_views(parts: Seq<String>) -> Seq<Seq<char>> {
    parts.map_values(|p: String| p@)
}

/// `parts` joined with `sep`.
pub(crate) fn join_strings(parts: &Vec<String>, sep: &str) -> (r: String)
    ensures
        r@ == join_seq(string_views(parts@), sep@),
{
    let ghost all = string_views(parts@);
    let mut out = String::new();
    let mut i: usize = 0;
    while i < parts.len()
        invariant
            all == string_views(parts@),
            i <= parts@.len(),
            out@ == join_seq(all.take(i as int), sep@),
        decreases parts.len() - i,
    {
        assert(all.take(i + 1).drop_last() =~= all.take(i as int));
        if i > 0 {
            push_str(&mut out, sep);
        } else {
            assert(all.take(0) =~= Seq::<Seq<char>>::empty());
        }
        push_str(&mut out, parts[i].as_str());
        i = i + 1;
    }
    assert(all.take(i as int) =~= all);
    out
}

/// The variants of a class name, joined with `:`.
fn group_exec(name: &str) -> (r: String)
    ensures
        r@ == group_of(name@),
{
    let (variants, utility) = tailwind_variants(name);
    assert(views(variants@) =~= views(variants@).push(utility@).drop_last());
    proof {
        reveal_strlit(":");
        assert(":"@ =~= seq![':']);
    }
    join_strs(&variants, ":")
}

/// Whether `w + a + b + c` exceeds `limit`, `indent` standing for `w`.
fn exceeds(indent: Option<usize>, a: usize, b: usize, c: usize, limit: usize, Ghost(w): Ghost<int>) -> (r: bool)
    requires
        width_is(indent, w),
    ensures
        r == (w + a + b + c > limit),
{
    match indent {
        None => true,
        Some(x) => match x.checked_add(a) {
            None => true,
            Some(y) => match y.checked_add(b) {
                None => true,
                Some(z) => match z.checked_add(c) {
                    None => true,
                    Some(t) => t > limit,
                },
            },
        },
    }
}

impl EnforceConsistentLineWrapping {
    /// The classes `names` placed on lines indented by `indent` columns, `groups` holding the
    /// variants of each class.
    fn wrap_lines(&self, names: &Vec<&str>, groups: &Vec<String>, indent: Option<usize>, Ghost(w): Ghost<int>) -> (r: Vec<String>)
        requires
            width_is(indent, w),
            groups@.len() == names@.len(),
            forall|k: int| 0 <= k < names@.len() ==> (#[trigger] groups@[k])@ == group_of(names@[k]@),
        ensures
            string_views(r@) == spec_wrap_lines(self.config, views(names@), w),
    {
        let cfg = self.config;
        let ghost all = views(names@);
        let mut lines: Vec<String> = Vec::new();
        lines.push(String::new());
        let mut count: usize = 0;
        let mut i: usize = 0;
        proof {
            assert(string_views(lines@) =~= seq![Seq::<char>::empty()]);
        }
        while i < names.len()
            invariant
                cfg == self.config,
                all == views(names@),
                width_is(indent, w),
                groups@.len() == names@.len(),
                forall|k: int| 0 <= k < names@.len() ==> (#[trigger] groups@[k])@ == group_of(names@[k]@),
                i <= names@.len(),
                count <= i,
                lines@.len() > 0,
                (string_views(lines@), count as int) == wrap_fold(cfg, all, w, i as int),
            decreases names.len() - i,
        {
            let ghost st = (string_views(lines@), count as int);
            assert(all[i as int] == names@[i as int]@);
            let group_changed = i > 0 && !str_eq(groups[i].as_str(), groups[i - 1].as_str());
            proof {
                if i > 0 {
                    assert(groups@[i as int]@ == group_of(all[i as int]));
                    assert(groups@[i - 1]@ == group_of(all[i - 1]));
                }
            }
            if group_changed && cfg.group != GroupSeparator::Never {
                if cfg.group == GroupSeparator::EmptyLine {
                    lines.push(String::new());
                }
                lines.push(String::new());
                count = 0;
            }
            let ghost mid = string_views(lines@);
            proof {
                if group_changed && cfg.group != GroupSeparator::Never {
                    if cfg.group == GroupSeparator::EmptyLine {
                        assert(mid =~= st.0.push(Seq::empty()).push(Seq::empty()));
                    } else {
                        assert(mid =~= st.0.push(Seq::empty()));
                    }
                }
            }
            let last = lines.len() - 1;
            let line_len = lines[last].as_str().len();
            let line_empty = lines[last].as_str().unicode_len() == 0;
            assert(mid.last() == lines@[last as int]@);
            let gap: usize = if line_empty { 0 } else { 1 };
            let over_width = cfg.print_width > 0 && exceeds(indent, line_len, gap, names[i].len(), cfg.print_width, Ghost(w));
            let over_count = cfg.classes_per_line > 0 && count >= cfg.classes_per_line;
            if !line_empty && (over_width || over_count) {
                lines.push(String::new());
                count = 0;
            }
            let ghost mid2 = string_views(lines@);
            proof {
                if !line_empty && (over_width || over_count) {
                    assert(mid2 =~= mid.push(Seq::empty()));
                } else {
                    assert(mid2 == mid);
                }
            }
            let last = lines.len() - 1;
            let mut line = lines[last].clone();
            assert(line@ == mid2.last());
            if line.as_str().unicode_len() > 0 {
                push_char(&mut line, ' ');
            }
            push_str(&mut line, names[i]);
            lines.set(last, line);
            assert(string_views(lines@) =~= mid2.update(mid2.len() - 1, line@));
            proof {
                let group_changed_spec = i > 0 && group_of(all[i as int]) != group_of(all[i - 1]);
                assert(group_changed == group_changed_spec);
                let first = if group_changed_spec && cfg.group != GroupSeparator::Never {
                    let with_gap = if cfg.group == GroupSeparator::EmptyLine { st.0.push(Seq::empty()) } else { st.0 };
                    (with_gap.push(Seq::empty()), 0int)
                } else {
                    st
                };
                assert(first.0 == mid);
                let l = first.0.last();
                assert(line_len == byte_len(l));
                assert(names@[i as int].len() == byte_len(all[i as int]));
                let next_width = w + byte_len(l) + (if l.len() > 0 { 1int } else { 0int }) + byte_len(all[i as int]);
                assert(over_width == (cfg.print_width > 0 && next_width > cfg.print_width));
                assert(wrap_fold(cfg, all, w, i + 1) == wrap_step(cfg, st, all, i as int, w));
            }
            count = count + 1;
            i = i + 1;
        }
        lines
    }
}

/// The number of spaces and tabs that start `s`, from its characters.
fn leading_blanks_exec(chars: &Vec<char>) -> (r: usize)
    ensures
        r == leading_blanks(chars@),
        r <= chars@.len(),
{
    let ghost s = chars@;
    let mut i: usize = 0;
    assert(s.subrange(0, s.len() as int) =~= s);
    while i < chars.len() && (chars[i] == ' ' || chars[i] == '\t')
        invariant
            s == chars@,
            i <= s.len(),
            leading_blanks(s) == i + leading_blanks(s.subrange(i as int, s.len() as int)),
        decreases chars.len() - i,
    {
        assert(s.subrange(i as int, s.len() as int).drop_first() =~= s.subrange(i + 1, s.len() as int));
        i = i + 1;
    }
    if i == chars.len() {
        assert(s.subrange(i as int, s.len() as int) =~= Seq::<char>::empty());
    }
    i
}

proof fn lemma_class_names_index(s: Seq<char>, k: int)
    requires
        0 <= k < class_spans(s, 0).len(),
    ensures
        class_names(s).len() == class_spans(s, 0).len(),
        class_names(s)[k] == s.subrange(class_spans(s, 0)[k].0, class_spans(s, 0)[k].1),
{
}

pub proof fn lemma_class_names_len(s: Seq<char>)
    ensures
        class_names(s).len() == class_spans(s, 0).len(),
{
}

/// The names of the classes of `content`.
pub(crate) fn class_name_list<'a>(content: &'a str, keep_leading: bool, keep_trailing: bool) -> (r: Vec<&'a str>)
    ensures
        views(r@) == class_names(content@),
{
    let classes = class_runs(content, keep_leading, keep_trailing);
    let ghost s = content@;
    let ghost spans = class_spans(s, 0);
    let ghost expected = class_names(s);
    let mut names: Vec<&str> = Vec::new();
    let mut i: usize = 0;
    while i < classes.len()
        invariant
            s == content@,
            spans == class_spans(s, 0),
            expected == class_names(s),
            classes@.len() == spans.len(),
            expected.len() == spans.len(),
            forall|k: int| 0 <= k < classes@.len() ==> is_class_at(#[trigger] classes@[k], s, spans[k], keep_leading, keep_trailing),
            i <= classes@.len(),
            names@.len() == i,
            forall|k: int| 0 <= k < i ==> (#[trigger] names@[k])@ == expected[k],
        decreases classes.len() - i,
    {
        assert(is_class_at(classes@[i as int], s, spans[i as int], keep_leading, keep_trailing));
        proof {
            lemma_class_names_index(s, i as int);
        }
        let name = classes[i].name;
        assert(name@ == s.subrange(spans[i as int].0, spans[i as int].1));
        names.push(name);
        assert(names@[i as int]@ == expected[i as int]);
        i = i + 1;
    }
    assert(views(names@) =~= expected);
    names
}

/// The variants of each class.
fn group_list(names: &Vec<&str>) -> (r: Vec<String>)
    ensures
        r@.len() == names@.len(),
        forall|j: int| 0 <= j < names@.len() ==> (#[trigger] r@[j])@ == group_of(names@[j]@),
{
    let mut groups: Vec<String> = Vec::new();
    let mut k: usize = 0;
    while k < names.len()
        invariant
            k <= names@.len(),
            groups@.len() == k,
            forall|j: int| 0 <= j < k ==> (#[trigger] groups@[j])@ == group_of(names@[j]@),
        decreases names.len() - k,
    {
        groups.push(group_exec(names[k]));
        k = k + 1;
    }
    groups
}

/// Whether consecutive classes differ in their variants.
fn group_change_exec(names: &Vec<&str>, groups: &Vec<String>) -> (r: bool)
    requires
        groups@.len() == names@.len(),
        forall|j: int| 0 <= j < names@.len() ==> (#[trigger] groups@[j])@ == group_of(names@[j]@),
    ensures
        r == has_group_change(views(names@)),
{
    let ghost all = views(names@);
    let mut k: usize = 1;
    while k < names.len()
        invariant
            all == views(names@),
            1 <= k,
            groups@.len() == names@.len(),
            forall|j: int| 0 <= j < names@.len() ==> (#[trigger] groups@[j])@ == group_of(names@[j]@),
            forall|j: int| 0 < j < k && j < all.len() ==> group_of(#[trigger] all[j]) == group_of(all[j - 1]),
        decreases names.len() - k,
    {
        assert(groups@[k as int]@ == group_of(all[k as int]));
        assert(groups@[k - 1]@ == group_of(all[k - 1]));
        if !str_eq(groups[k].as_str(), groups[k - 1].as_str()) {
            return true;
        }
        k = k + 1;
    }
    false
}

/// Each line indented by `inner`, an empty line left empty.
fn indent_lines(lines: &Vec<String>, inner: &str) -> (r: Vec<String>)
    ensures
        string_views(r@) == string_views(lines@).map_values(|line: Seq<char>| if line.len() == 0 { line } else { inner@ + line }),
{
    let mut body_lines: Vec<String> = Vec::new();
    let mut k: usize = 0;
    while k < lines.len()
        invariant
            k <= lines@.len(),
            body_lines@.len() == k,
            forall|j: int| 0 <= j < k ==> (#[trigger] body_lines@[j])@ == (if lines@[j]@.len() == 0 { lines@[j]@ } else { inner@ + lines@[j]@ }),
        decreases lines.len() - k,
    {
        if lines[k].as_str().unicode_len() == 0 {
            let empty = String::new();
            assert(empty@ =~= lines@[k as int]@);
            body_lines.push(empty);
        } else {
            let mut indented = inner.to_owned();
            push_str(&mut indented, lines[k].as_str());
            body_lines.push(indented);
        }
        k = k + 1;
    }
    assert(string_views(body_lines@) =~= string_views(lines@).map_values(|line: Seq<char>| if line.len() == 0 { line } else { inner@ + line }));
    body_lines
}

/// The wrapped template text.
fn template_exec(lines: &Vec<String>, inner: &str, outer: &str, line_break: &str) -> (r: String)
    ensures
        r@ == wrapped_template(string_views(lines@), inner@, outer@, line_break@),
{
    let body_lines = indent_lines(lines, inner);
    let body = join_strings(&body_lines, line_break);
    let mut template = String::new();
    push_char(&mut template, '`');
    push_str(&mut template, line_break);
    push_str(&mut template, body.as_str());
    push_str(&mut template, line_break);
    push_str(&mut template, outer);
    push_char(&mut template, '`');
    assert(template@ =~= wrapped_template(string_views(lines@), inner@, outer@, line_break@));
    template
}

/// The indentation of the wrapped lines: the outer indentation and one more level.
fn inner_indent(outer: &str, indent: Indent) -> (r: String)
    ensures
        r@ == outer@ + match indent {
            Indent::Spaces(count) => spaces(count as nat),
            Indent::Tab => seq!['\t'],
        },
{
    let mut inner = outer.to_owned();
    match indent {
        Indent::Spaces(count) => {
            let ghost start = inner@;
            let mut j: u32 = 0;
            assert(start =~= start + spaces(0));
            while j < count
                invariant
                    j <= count,
                    inner@ == start + spaces(j as nat),
                    start == outer@,
                decreases count - j,
            {
                push_char(&mut inner, ' ');
                assert(start + spaces((j + 1) as nat) =~= (start + spaces(j as nat)).push(' '));
                j = j + 1;
            }
        },
        Indent::Tab => {
            push_char(&mut inner, '\t');
        },
    }
    inner
}

impl EnforceConsistentLineWrapping {
    /// The default configuration.
    pub fn new() -> (r: Self)
        ensures
            r.config == EnforceConsistentLineWrappingConfig::new_spec(),
    {
        EnforceConsistentLineWrapping { config: EnforceConsistentLineWrappingConfig::new() }
    }

    /// Whether the classes stay on one line.
    fn single_line_exec(&self, names: &Vec<&str>, single: &String, line_before: &str) -> (r: bool)
        requires
            single@ == join_seq(views(names@), seq![' ']),
        ensures
            r == self.use_single_line(views(names@), visual_width(line_before@, self.config.tab_width as int)),
    {
        let cfg = self.config;
        let groups = group_list(names);
        let group_change = group_change_exec(names, &groups);
        let start_column = visual_width_exec(line_before, cfg.tab_width);
        let within_width = cfg.print_width == 0 || match start_column {
            None => false,
            Some(c) => match c.checked_add(single.as_str().len()) {
                None => false,
                Some(t) => t <= cfg.print_width,
            },
        };
        let within_count = cfg.classes_per_line == 0 || names.len() <= cfg.classes_per_line;
        let has_groups = cfg.group != GroupSeparator::Never && group_change;
        within_width && within_count && (!has_groups || cfg.prefer_single_line)
    }

    /// The wrapped template of the classes `names`, for a literal whose line starts with
    /// `source` (the text before it, then the class string).
    fn wrapped_exec(&self, names: &Vec<&str>, source: &str) -> (r: String)
        ensures
            ({
                let cfg = self.config;
                let line_break = match cfg.line_break_style {
                    LineBreakStyle::Unix => seq!['\n'],
                    LineBreakStyle::Windows => seq!['\r', '\n'],
                };
                let outer = source@.subrange(0, leading_blanks(source@));
                let inner = outer + match cfg.indent {
                    Indent::Spaces(count) => spaces(count as nat),
                    Indent::Tab => seq!['\t'],
                };
                r@ == wrapped_template(spec_wrap_lines(cfg, views(names@), visual_width(inner, cfg.tab_width as int)), inner, outer, line_break)
            }),
    {
        let cfg = self.config;
        let line_break = match cfg.line_break_style {
            LineBreakStyle::Unix => "\n",
            LineBreakStyle::Windows => "\r\n",
        };
        proof {
            reveal_strlit("\n");
            reveal_strlit("\r\n");
            assert("\n"@ =~= seq!['\n']);
            assert("\r\n"@ =~= seq!['\r', '\n']);
        }
        let source_chars = chars_of(source);
        let blanks = leading_blanks_exec(&source_chars);
        let outer = source.substring_char(0, blanks);
        let inner = inner_indent(outer, cfg.indent);
        let inner_width = visual_width_exec(inner.as_str(), cfg.tab_width);
        let groups = group_list(names);
        let lines = self.wrap_lines(names, &groups, inner_width, Ghost(visual_width(inner@, cfg.tab_width as int)));
        template_exec(&lines, inner.as_str(), outer, line_break)
    }

    /// The wrong wrapping of the class string `content` of `literal`, if any, with its fix.
    /// `line_before` is the text on the literal's line before it and `node` the string or
    /// template it stands in. A class string next to an interpolation is left alone.
    pub fn check(&self, literal: &TailwindLiteral, content: &str, line_before: &str, node: &WrapNode) -> (r: Option<LineWrapReport>)
        ensures
            match r {
                Some(report) => self.spec_check(*literal, content@, line_before@, *node) == Some((report.target, report.replacement@)),
                None => self.spec_check(*literal, content@, line_before@, *node) is None,
            },
    {
        if literal.keep_leading || literal.keep_trailing {
            return None;
        }
        let names = class_name_list(content, literal.keep_leading, literal.keep_trailing);
        if names.len() == 0 {
            return None;
        }
        proof {
            reveal_strlit(" ");
            assert(" "@ =~= seq![' ']);
        }
        let single = join_strs(&names, " ");
        if self.single_line_exec(&names, &single, line_before) {
            if str_eq(content, single.as_str()) {
                return None;
            }
            return Some(LineWrapReport { target: WrapTarget::Content, replacement: single });
        }
        let mut source = line_before.to_owned();
        push_str(&mut source, content);
        let template = self.wrapped_exec(&names, source.as_str());
        match node {
            WrapNode::String { source, in_jsx } => {
                let replacement = if *in_jsx {
                    let mut wrapped = String::new();
                    push_char(&mut wrapped, '{');
                    push_str(&mut wrapped, template.as_str());
                    push_char(&mut wrapped, '}');
                    assert(wrapped@ =~= seq!['{'] + template@ + seq!['}']);
                    wrapped
                } else {
                    template
                };
                if str_eq(source, replacement.as_str()) {
                    None
                } else {
                    Some(LineWrapReport { target: WrapTarget::Node, replacement })
                }
            },
            WrapNode::Template { literal_source } => match literal_source {
                Some(before) => if str_eq(before, template.as_str()) {
                    None
                } else {
                    Some(LineWrapReport { target: WrapTarget::Node, replacement: template })
                },
                None => None,
            },
        }
    }
}

impl EnforceConsistentLineWrappingConfig {
    pub open spec fn new_spec() -> Self {
        EnforceConsistentLineWrappingConfig {
            print_width: 80,
            classes_per_line: 0,
            group: GroupSeparator::NewLine,
            prefer_single_line: false,
            indent: Indent::Spaces(2),
            tab_width: 1,
            line_break_style: LineBreakStyle::Unix,
        }
    }
}

/// The text of a line: its classes joined with spaces.
pub open spec fn line_text(run: Seq<Seq<char>>) -> Seq<char> {
    join_seq(run, seq![' '])
}

/// The texts of the lines.
pub open spec fn line_texts(runs: Seq<Seq<Seq<char>>>) -> Seq<Seq<char>> {
    runs.map_values(|run: Seq<Seq<char>>| line_text(run))
}

/// The runs of classes after placing the class `k`, as `wrap_step` places it.
pub open spec fn run_step(
    cfg: EnforceConsistentLineWrappingConfig,
    st: (Seq<Seq<Seq<char>>>, int),
    names: Seq<Seq<char>>,
    k: int,
    indent_width: int,
) -> (Seq<Seq<Seq<char>>>, int) {
    let group_changed = k > 0 && group_of(names[k]) != group_of(names[k - 1]);
    let (runs, count) = if group_changed && cfg.group != GroupSeparator::Never {
        let with_gap = if cfg.group == GroupSeparator::EmptyLine { st.0.push(Seq::empty()) } else { st.0 };
        (with_gap.push(Seq::empty()), 0)
    } else {
        st
    };
    let line = line_text(runs.last());
    let next_width = indent_width + byte_len(line) + (if line.len() > 0 { 1int } else { 0int }) + byte_len(names[k]);
    let over_width = cfg.print_width > 0 && next_width > cfg.print_width;
    let over_count = cfg.classes_per_line > 0 && count >= cfg.classes_per_line;
    let (runs, count) = if line.len() > 0 && (over_width || over_count) { (runs.push(Seq::empty()), 0) } else { (runs, count) };
    (runs.update(runs.len() - 1, runs.last().push(names[k])), count + 1)
}

pub open spec fn run_fold(cfg: EnforceConsistentLineWrappingConfig, names: Seq<Seq<char>>, indent_width: int, n: int) -> (Seq<Seq<Seq<char>>>, int)
    decreases n,
{
    if n <= 0 {
        (seq![Seq::empty()], 0)
    } else {
        run_step(cfg, run_fold(cfg, names, indent_width, n - 1), names, n - 1, indent_width)
    }
}

/// The classes of each wrapped line, in order; an empty run is a blank line.
pub open spec fn wrap_runs(cfg: EnforceConsistentLineWrappingConfig, names: Seq<Seq<char>>, indent_width: int) -> Seq<Seq<Seq<char>>> {
    run_fold(cfg, names, indent_width, names.len() as int).0
}

/// The runs one after the other.
pub open spec fn concat_runs(runs: Seq<Seq<Seq<char>>>) -> Seq<Seq<char>>
    decreases runs.len(),
{
    if runs.len() == 0 {
        Seq::empty()
    } else {
        concat_runs(runs.drop_last()) + runs.last()
    }
}

proof fn lemma_join_push(run: Seq<Seq<char>>, name: Seq<char>)
    ensures
        line_text(run.push(name)) == if run.len() == 0 { name } else { line_text(run) + seq![' '] + name },
{
    if run.len() > 0 {
        assert(run.push(name).drop_last() =~= run);
    }
}

proof fn lemma_join_nonempty(run: Seq<Seq<char>>)
    requires
        forall|j: int| 0 <= j < run.len() ==> (#[trigger] run[j]).len() > 0,
    ensures
        (line_text(run).len() > 0) == (run.len() > 0),
    decreases run.len(),
{
    if run.len() > 1 {
        lemma_join_nonempty(run.drop_last());
    }
}

proof fn lemma_concat_runs_push_empty(runs: Seq<Seq<Seq<char>>>)
    ensures
        concat_runs(runs.push(Seq::empty())) == concat_runs(runs),
{
    assert(runs.push(Seq::empty()).drop_last() =~= runs);
    assert(concat_runs(runs) + Seq::<Seq<char>>::empty() =~= concat_runs(runs));
}

proof fn lemma_run_fold(cfg: EnforceConsistentLineWrappingConfig, names: Seq<Seq<char>>, indent_width: int, n: int)
    requires
        0 <= n <= names.len(),
        forall|k: int| 0 <= k < names.len() ==> (#[trigger] names[k]).len() > 0,
    ensures
        run_fold(cfg, names, indent_width, n).0.len() > 0,
        wrap_fold(cfg, names, indent_width, n) == (line_texts(run_fold(cfg, names, indent_width, n).0), run_fold(cfg, names, indent_width, n).1),
        concat_runs(run_fold(cfg, names, indent_width, n).0) == names.take(n),
        run_fold(cfg, names, indent_width, n).1 == run_fold(cfg, names, indent_width, n).0.last().len(),
        forall|i: int, j: int| 0 <= i < run_fold(cfg, names, indent_width, n).0.len() && 0 <= j < run_fold(cfg, names, indent_width, n).0[i].len()
            ==> (#[trigger] run_fold(cfg, names, indent_width, n).0[i][j]).len() > 0,
        cfg.classes_per_line > 0 ==> forall|i: int| 0 <= i < run_fold(cfg, names, indent_width, n).0.len()
            ==> (#[trigger] run_fold(cfg, names, indent_width, n).0[i]).len() <= cfg.classes_per_line,
    decreases n,
{
    if n == 0 {
        let runs = seq![Seq::<Seq<char>>::empty()];
        assert(line_texts(runs) =~= seq![Seq::<char>::empty()]);
        assert(runs.drop_last() =~= Seq::<Seq<Seq<char>>>::empty());
        assert(concat_runs(runs) == concat_runs(runs.drop_last()) + runs.last());
        assert(concat_runs(runs) =~= names.take(0));
    } else {
        lemma_run_fold(cfg, names, indent_width, n - 1);
        let st = run_fold(cfg, names, indent_width, n - 1);
        let k = n - 1;
        let group_changed = k > 0 && group_of(names[k]) != group_of(names[k - 1]);
        let first = if group_changed && cfg.group != GroupSeparator::Never {
            let with_gap = if cfg.group == GroupSeparator::EmptyLine { st.0.push(Seq::empty()) } else { st.0 };
            (with_gap.push(Seq::empty()), 0int)
        } else {
            st
        };
        if group_changed && cfg.group != GroupSeparator::Never {
            if cfg.group == GroupSeparator::EmptyLine {
                lemma_concat_runs_push_empty(st.0);
                lemma_concat_runs_push_empty(st.0.push(Seq::empty()));
                assert(line_texts(first.0) =~= line_texts(st.0).push(Seq::empty()).push(Seq::empty()));
            } else {
                lemma_concat_runs_push_empty(st.0);
                assert(line_texts(first.0) =~= line_texts(st.0).push(Seq::empty()));
            }
        }
        assert(line_texts(first.0).last() == line_text(first.0.last()));
        let line = line_text(first.0.last());
        lemma_join_nonempty(first.0.last());
        let next_width = indent_width + byte_len(line) + (if line.len() > 0 { 1int } else { 0int }) + byte_len(names[k]);
        let over_width = cfg.print_width > 0 && next_width > cfg.print_width;
        let over_count = cfg.classes_per_line > 0 && first.1 >= cfg.classes_per_line;
        let second = if line.len() > 0 && (over_width || over_count) { (first.0.push(Seq::empty()), 0int) } else { first };
        if line.len() > 0 && (over_width || over_count) {
            lemma_concat_runs_push_empty(first.0);
            assert(line_texts(second.0) =~= line_texts(first.0).push(Seq::empty()));
        }
        let last = second.0.last();
        let runs = second.0.update(second.0.len() - 1, last.push(names[k]));
        assert(run_fold(cfg, names, indent_width, n) == (runs, second.1 + 1));
        lemma_join_push(last, names[k]);
        let placed = if line_text(last).len() > 0 { line_text(last).push(' ') + names[k] } else { names[k] };
        lemma_join_nonempty(last);
        assert(line_text(last.push(names[k])) =~= placed);
        assert(line_texts(runs) =~= line_texts(second.0).update(second.0.len() - 1, placed));
        assert(runs.drop_last() =~= second.0.drop_last());
        assert(concat_runs(second.0) == concat_runs(second.0.drop_last()) + last);
        assert(names.take(n) =~= names.take(n - 1).push(names[k]));
        assert(concat_runs(runs) =~= concat_runs(second.0) + seq![names[k]]);
    }
}

/// Wrapping keeps the classes in order and puts no more than `classes_per_line` of them on a
/// line (when that is set): the lines are runs of the classes joined with spaces (an empty run
/// is a blank line between groups), the runs one after the other are the classes, and no run
/// holds more classes than the limit.
pub proof fn wrapping_keeps_classes_in_order(cfg: EnforceConsistentLineWrappingConfig, names: Seq<Seq<char>>, indent_width: int)
    requires
        forall|k: int| 0 <= k < names.len() ==> (#[trigger] names[k]).len() > 0,
    ensures
        spec_wrap_lines(cfg, names, indent_width) == line_texts(wrap_runs(cfg, names, indent_width)),
        concat_runs(wrap_runs(cfg, names, indent_width)) == names,
        cfg.classes_per_line > 0 ==> forall|i: int| 0 <= i < wrap_runs(cfg, names, indent_width).len()
            ==> (#[trigger] wrap_runs(cfg, names, indent_width)[i]).len() <= cfg.classes_per_line,
{
    lemma_run_fold(cfg, names, indent_width, names.len() as int);
    assert(names.take(names.len() as int) =~= names);
}

proof fn lemma_encode_space()
    ensures
        encode_utf8(seq![' ']).len() == 1,
{
    let space = seq![' '];
    assert(vstd::utf8::is_ascii_chars(space));
    vstd::utf8::is_ascii_chars_encode_utf8(space);
}

/// The UTF-8 length of a text, without a bound.
pub open spec fn utf8_len(s: Seq<char>) -> int {
    encode_utf8(s).len() as int
}

proof fn lemma_run_fold_width(cfg: EnforceConsistentLineWrappingConfig, names: Seq<Seq<char>>, indent_width: int, n: int)
    requires
        0 <= n <= names.len(),
        0 <= indent_width,
        forall|k: int| 0 <= k < names.len() ==> (#[trigger] names[k]).len() > 0,
        forall|k: int| 0 <= k < names.len() ==> utf8_len(#[trigger] names[k]) <= usize::MAX,
    ensures
        forall|i: int, j: int| 0 <= i < run_fold(cfg, names, indent_width, n).0.len() && 0 <= j < run_fold(cfg, names, indent_width, n).0[i].len()
            ==> utf8_len(#[trigger] run_fold(cfg, names, indent_width, n).0[i][j]) <= usize::MAX,
        cfg.print_width > 0 ==> forall|i: int| 0 <= i < run_fold(cfg, names, indent_width, n).0.len()
            && (#[trigger] run_fold(cfg, names, indent_width, n).0[i]).len() >= 2
            ==> indent_width + utf8_len(line_text(run_fold(cfg, names, indent_width, n).0[i])) <= cfg.print_width,
    decreases n,
{
    if n > 0 {
        lemma_run_fold_width(cfg, names, indent_width, n - 1);
        lemma_run_fold(cfg, names, indent_width, n - 1);
        let st = run_fold(cfg, names, indent_width, n - 1);
        let k = n - 1;
        let group_changed = k > 0 && group_of(names[k]) != group_of(names[k - 1]);
        let first = if group_changed && cfg.group != GroupSeparator::Never {
            let with_gap = if cfg.group == GroupSeparator::EmptyLine { st.0.push(Seq::empty()) } else { st.0 };
            (with_gap.push(Seq::empty()), 0int)
        } else {
            st
        };
        let line = line_text(first.0.last());
        let next_width = indent_width + byte_len(line) + (if line.len() > 0 { 1int } else { 0int }) + byte_len(names[k]);
        let over_width = cfg.print_width > 0 && next_width > cfg.print_width;
        let over_count = cfg.classes_per_line > 0 && first.1 >= cfg.classes_per_line;
        let second = if line.len() > 0 && (over_width || over_count) { (first.0.push(Seq::empty()), 0int) } else { first };
        let last = second.0.last();
        let runs = second.0.update(second.0.len() - 1, last.push(names[k]));
        assert(run_fold(cfg, names, indent_width, n) == (runs, second.1 + 1));
        assert forall|i: int, j: int| 0 <= i < runs.len() && 0 <= j < runs[i].len() implies utf8_len(#[trigger] runs[i][j]) <= usize::MAX by {
            if i == runs.len() - 1 && j == last.len() {
                assert(runs[i][j] == names[k]);
            } else if i == runs.len() - 1 {
                assert(runs[i][j] == last[j]);
            } else {
                assert(runs[i] == second.0[i]);
            }
        }
        if cfg.print_width > 0 && last.len() > 0 {
            lemma_join_nonempty(last);
            lemma_join_push(last, names[k]);
            lemma_encode_concat(line_text(last) + seq![' '], names[k]);
            lemma_encode_concat(line_text(last), seq![' ']);
            lemma_encode_space();
            assert(second.0 == first.0);
            assert(line == line_text(last));
            assert(!over_width);
            if last.len() == 1 {
                assert(line_text(last) == last[0]);
            }
            assert(utf8_len(line_text(last)) <= usize::MAX);
            assert(byte_len(line_text(last)) == utf8_len(line_text(last)));
            assert(byte_len(names[k]) == utf8_len(names[k]));
        }
        assert forall|i: int| cfg.print_width > 0 && 0 <= i < runs.len() && (#[trigger] runs[i]).len() >= 2
            implies indent_width + utf8_len(line_text(runs[i])) <= cfg.print_width by {
            if i < runs.len() - 1 {
                assert(runs[i] == second.0[i]);
            }
        }
    }
}

/// A wrapped line that holds two or more classes fits the print width, when one is set: the
/// indentation and its UTF-8 length are at most `print_width`. (A class longer than the width
/// gets a line of its own.) Each class is a string, so its UTF-8 length fits in a `usize`.
pub proof fn wrapped_lines_fit_the_width(cfg: EnforceConsistentLineWrappingConfig, names: Seq<Seq<char>>, indent_width: int)
    requires
        0 <= indent_width,
        forall|k: int| 0 <= k < names.len() ==> (#[trigger] names[k]).len() > 0,
        forall|k: int| 0 <= k < names.len() ==> utf8_len(#[trigger] names[k]) <= usize::MAX,
    ensures
        cfg.print_width > 0 ==> forall|i: int| 0 <= i < wrap_runs(cfg, names, indent_width).len()
            && (#[trigger] wrap_runs(cfg, names, indent_width)[i]).len() >= 2
            ==> indent_width + utf8_len(line_text(wrap_runs(cfg, names, indent_width)[i])) <= cfg.print_width,
{
    lemma_run_fold_width(cfg, names, indent_width, names.len() as int);
}

/// Whether a run of `runs` starts with the class at position `k` of the classes.
pub open spec fn starts_run(runs: Seq<Seq<Seq<char>>>, k: int) -> bool {
    exists|i: int| 0 <= i < runs.len() && #[trigger] concat_runs(runs.take(i)).len() == k && runs[i].len() > 0
}

/// Whether the class at `k` begins a new group: its variants differ from the previous class's.
pub open spec fn group_changes(names: Seq<Seq<char>>, k: int) -> bool {
    0 < k < names.len() && group_of(names[k]) != group_of(names[k - 1])
}

proof fn lemma_take_push(runs: Seq<Seq<Seq<char>>>, extra: Seq<Seq<char>>, i: int)
    requires
        0 <= i <= runs.len(),
    ensures
        runs.push(extra).take(i) == runs.take(i),
{
    assert(runs.push(extra).take(i) =~= runs.take(i));
}

#[verifier::spinoff_prover]
#[verifier::rlimit(40)]
proof fn lemma_run_fold_groups(cfg: EnforceConsistentLineWrappingConfig, names: Seq<Seq<char>>, indent_width: int, n: int)
    requires
        0 <= n <= names.len(),
        forall|k: int| 0 <= k < names.len() ==> (#[trigger] names[k]).len() > 0,
    ensures
        cfg.group != GroupSeparator::Never ==> forall|k: int| 0 <= k < n && #[trigger] group_changes(names, k)
            ==> starts_run(run_fold(cfg, names, indent_width, n).0, k),
    decreases n,
{
    if n > 0 && cfg.group != GroupSeparator::Never {
        lemma_run_fold_groups(cfg, names, indent_width, n - 1);
        lemma_run_fold(cfg, names, indent_width, n - 1);
        let st = run_fold(cfg, names, indent_width, n - 1);
        let k = n - 1;
        let group_changed = k > 0 && group_of(names[k]) != group_of(names[k - 1]);
        let first = if group_changed && cfg.group != GroupSeparator::Never {
            let with_gap = if cfg.group == GroupSeparator::EmptyLine { st.0.push(Seq::empty()) } else { st.0 };
            (with_gap.push(Seq::empty()), 0int)
        } else {
            st
        };
        let line = line_text(first.0.last());
        lemma_join_nonempty(first.0.last());
        let next_width = indent_width + byte_len(line) + (if line.len() > 0 { 1int } else { 0int }) + byte_len(names[k]);
        let over_width = cfg.print_width > 0 && next_width > cfg.print_width;
        let over_count = cfg.classes_per_line > 0 && first.1 >= cfg.classes_per_line;
        let second = if line.len() > 0 && (over_width || over_count) { (first.0.push(Seq::empty()), 0int) } else { first };
        let last = second.0.last();
        let runs = second.0.update(second.0.len() - 1, last.push(names[k]));
        assert(run_fold(cfg, names, indent_width, n) == (runs, second.1 + 1));
        // Runs before the last keep their prefixes; the last only grows.
        assert forall|j: int| 0 <= j < st.0.len() implies runs.take(j) == st.0.take(j) && runs[j].len() >= st.0[j].len() by {
            if group_changed {
                if cfg.group == GroupSeparator::EmptyLine {
                    lemma_take_push(st.0, Seq::empty(), j);
                    lemma_take_push(st.0.push(Seq::empty()), Seq::empty(), j);
                } else {
                    lemma_take_push(st.0, Seq::empty(), j);
                }
            }
            if line.len() > 0 && (over_width || over_count) {
                lemma_take_push(first.0, Seq::empty(), j);
            }
            assert(second.0.take(j) == st.0.take(j));
            assert(second.0[j] == st.0[j]);
            assert(runs.take(j) =~= second.0.take(j));
        }
        assert forall|m: int| 0 <= m < n && #[trigger] group_changes(names, m) implies starts_run(runs, m) by {
            if m < k {
                let i = choose|i: int| 0 <= i < st.0.len() && #[trigger] concat_runs(st.0.take(i)).len() == m && st.0[i].len() > 0;
                assert(runs.take(i) == st.0.take(i));
                assert(concat_runs(runs.take(i)).len() == m);
                assert(runs[i].len() > 0);
                assert(starts_run(runs, m));
            } else {
                assert(m == k && group_changed);
                let i = second.0.len() - 1;
                assert(first.0.last() == Seq::<Seq<char>>::empty());
                assert(line.len() == 0);
                assert(second == first);
                assert(runs.take(i) =~= first.0.drop_last());
                if cfg.group == GroupSeparator::EmptyLine {
                    assert(first.0.drop_last() =~= st.0.push(Seq::empty()));
                    lemma_concat_runs_push_empty(st.0);
                } else {
                    assert(first.0.drop_last() =~= st.0);
                }
                assert(concat_runs(runs.take(i)) == names.take(k));
                assert(concat_runs(runs.take(i)).len() == k);
                assert(runs[i].len() > 0);
                assert(starts_run(runs, m));
            }
        }
    }
}

/// Wrapping puts each class that starts a new group (its variants differ from the previous
/// class's) at the start of a line, unless groups are not separated.
pub proof fn wrapping_starts_groups_on_new_lines(cfg: EnforceConsistentLineWrappingConfig, names: Seq<Seq<char>>, indent_width: int)
    requires
        forall|k: int| 0 <= k < names.len() ==> (#[trigger] names[k]).len() > 0,
    ensures
        cfg.group != GroupSeparator::Never ==> forall|k: int| #[trigger] group_changes(names, k)
            ==> starts_run(wrap_runs(cfg, names, indent_width), k),
{
    lemma_run_fold_groups(cfg, names, indent_width, names.len() as int);
}

} // verus!
