//! Legacy `theme(..)` functions in arbitrary values, written as the theme variables they name:
//! `theme(colors.red.500)` as `var(--color-red-500)`, and a spacing step as `--spacing(n)`.
//! Whether a spacing step is one is a numeric question the caller answers.

use vstd::prelude::*;
use crate::canonical::{
    before_suffix, closing_paren_from, concat2, concat3, find_from, find_from_exec, hyphenate_theme_path,
    lemma_closing_paren_bounds, lemma_find_from_bounds, matching_parenthesis, normalize_legacy_theme_path,
    push_range, spec_hyphenate_theme_path, spec_normalize_legacy_theme_path, strip_prefix_or_self, without_prefix,
};
use crate::candidate::opt_text;
use crate::collections::text_map_contents;
use crate::design_system::DesignSystem;
use crate::text::{chars_of, contains_char, is_prefix, push_str, starts_with, strip_suffix, trim, trim_ws};

verus! {

/// The spacing step that a legacy path asks about: what follows `spacing.` in the normalized
/// path, for a path without `,` or `/`.
pub open spec fn spec_spacing_query(path: Seq<char>) -> Option<Seq<char>> {
    if path.contains(',') || path.contains('/') {
        None
    } else {
        let normalized = spec_normalize_legacy_theme_path(path);
        if is_prefix("spacing."@, normalized) {
            Some(without_prefix(normalized, "spacing."@))
        } else {
            None
        }
    }
}

/// The theme variable that a normalized legacy path names by its namespace: colors, font sizes
/// (and their line heights), font families, radii, shadows, breakpoints and container widths.
pub open spec fn legacy_path_variable(path: Seq<char>) -> Option<Seq<char>> {
    if is_prefix("colors."@, path) {
        Some("--color-"@ + spec_hyphenate_theme_path(without_prefix(path, "colors."@)))
    } else if is_prefix("fontSize."@, path) {
        let name = without_prefix(path, "fontSize."@);
        Some("--text-"@ + match before_suffix(name, ".1.lineHeight"@) {
            Some(size) => spec_hyphenate_theme_path(size) + "--line-height"@,
            None => spec_hyphenate_theme_path(name),
        })
    } else if is_prefix("fontFamily."@, path) {
        Some("--font-"@ + spec_hyphenate_theme_path(without_prefix(path, "fontFamily."@)))
    } else if is_prefix("borderRadius."@, path) {
        Some("--radius-"@ + spec_hyphenate_theme_path(without_prefix(path, "borderRadius."@)))
    } else if is_prefix("boxShadow."@, path) {
        Some("--shadow-"@ + spec_hyphenate_theme_path(without_prefix(path, "boxShadow."@)))
    } else if is_prefix("screens."@, path) {
        Some("--breakpoint-"@ + spec_hyphenate_theme_path(without_prefix(path, "screens."@)))
    } else if is_prefix("maxWidth."@, path) {
        Some("--container-"@ + spec_hyphenate_theme_path(without_prefix(path, "maxWidth."@)))
    } else {
        None
    }
}

/// The theme variable a legacy path names, when the theme defines it: `--spacing(n)` for a
/// spacing step (`spacing_valid` says whether it is one) when the theme has a spacing scale,
/// the namespace's variable otherwise.
pub open spec fn spec_legacy_theme_path(design: DesignSystem, path: Seq<char>, spacing_valid: bool) -> Option<Seq<char>> {
    if path.contains(',') || path.contains('/') {
        None
    } else {
        let normalized = spec_normalize_legacy_theme_path(path);
        if is_prefix("spacing."@, normalized) {
            if spacing_valid && text_map_contents(design.theme).contains_key("--spacing"@) {
                Some("--spacing("@ + without_prefix(normalized, "spacing."@) + ")"@)
            } else {
                None
            }
        } else {
            match legacy_path_variable(normalized) {
                Some(variable) => if text_map_contents(design.theme).contains_key(variable) { Some(variable) } else { None },
                None => None,
            }
        }
    }
}

/// Whether the `k`-th answer says its spacing step is one.
pub open spec fn answer(answers: Seq<bool>, k: int) -> bool {
    0 <= k < answers.len() && answers[k]
}

/// The trimmed path of the `theme(..)` whose name starts at `start` and whose `)` is at `close`.
pub open spec fn theme_path(s: Seq<char>, start: int, close: int) -> Seq<char> {
    trim_ws(s.subrange(start + 6, close))
}

/// What replaces a `theme(..)` that names `variable`: the spacing function itself, `--theme(..)`
/// in a variant, `var(..)` elsewhere.
pub open spec fn theme_replacement(variable: Seq<char>, in_variant: bool) -> Seq<char> {
    if is_prefix("--spacing("@, variable) {
        variable
    } else if in_variant {
        "--theme("@ + variable + ")"@
    } else {
        "var("@ + variable + ")"@
    }
}

/// `s` from `cursor` on with each closed `theme(..)` that names a theme variable replaced, the
/// `k`-th of them (counting from `cursor`) answered by `answers[k]`; the rest is kept as it is
/// from the first `theme(` that is not closed.
pub open spec fn theme_scan(design: DesignSystem, s: Seq<char>, in_variant: bool, answers: Seq<bool>, cursor: int, k: int) -> Seq<char>
    decreases s.len() - cursor,
{
    if cursor < 0 || cursor > s.len() {
        Seq::empty()
    } else {
        match find_from(s, "theme("@, cursor) {
            None => s.subrange(cursor, s.len() as int),
            Some(start) => match closing_paren_from(s, start + 5, 0) {
                None => s.subrange(cursor, s.len() as int),
                Some(close) => if start < cursor || close < start + 6 || close >= s.len() {
                    Seq::empty()
                } else {
                    let piece = match spec_legacy_theme_path(design, theme_path(s, start, close), answer(answers, k)) {
                        Some(variable) => theme_replacement(variable, in_variant),
                        None => s.subrange(start, close + 1),
                    };
                    s.subrange(cursor, start) + piece + theme_scan(design, s, in_variant, answers, close + 1, k + 1)
                },
            },
        }
    }
}

/// The spacing questions of the closed `theme(..)`s of `s` from `cursor` on, one per function.
pub open spec fn theme_queries(s: Seq<char>, cursor: int) -> Seq<Option<Seq<char>>>
    decreases s.len() - cursor,
{
    if cursor < 0 || cursor > s.len() {
        Seq::empty()
    } else {
        match find_from(s, "theme("@, cursor) {
            None => Seq::empty(),
            Some(start) => match closing_paren_from(s, start + 5, 0) {
                None => Seq::empty(),
                Some(close) => if start < cursor || close < start + 6 || close >= s.len() {
                    Seq::empty()
                } else {
                    seq![spec_spacing_query(theme_path(s, start, close))] + theme_queries(s, close + 1)
                },
            },
        }
    }
}

/// `input` with its legacy theme functions written as theme variables, as `theme_scan` says.
pub open spec fn spec_rewrite_theme_functions(design: DesignSystem, input: Seq<char>, in_variant: bool, answers: Seq<bool>) -> Seq<char> {
    theme_scan(design, input, in_variant, answers, 0, 0)
}

proof fn lemma_theme_open(s: Seq<char>, start: int)
    requires
        crate::css::occurs_at(s, "theme("@, start),
    ensures
        start + 6 <= s.len(),
        s[start + 5] == '(',
        closing_paren_from(s, start + 5, 0) == closing_paren_from(s, start + 6, 1),
        closing_paren_from(s, start + 5, 0) matches Some(k) ==> start + 6 <= k < s.len(),
{
    reveal_strlit("theme(");
    let p = "theme("@;
    assert(p =~= seq!['t', 'h', 'e', 'm', 'e', '(']);
    assert(s.subrange(start, start + 6)[5] == s[start + 5]);
    lemma_closing_paren_bounds(s, start + 6, 1);
}

fn after_prefix<'a>(path: &'a str, prefix: &str) -> (r: &'a str)
    requires
        is_prefix(prefix@, path@),
    ensures
        r@ == without_prefix(path@, prefix@),
{
    strip_prefix_or_self(path, prefix)
}

fn legacy_path_variable_exec(path: &str) -> (r: Option<String>)
    ensures
        opt_text(r) == legacy_path_variable(path@),
{
    if starts_with(path, "colors.") {
        Some(concat2("--color-", hyphenate_theme_path(after_prefix(path, "colors.")).as_str()))
    } else if starts_with(path, "fontSize.") {
        let name = after_prefix(path, "fontSize.");
        let tail = match strip_suffix(name, ".1.lineHeight") {
            Some(size) => {
                assert(name@.subrange(0, name@.len() - ".1.lineHeight"@.len()) =~= size@);
                concat2(hyphenate_theme_path(size).as_str(), "--line-height")
            },
            None => hyphenate_theme_path(name),
        };
        Some(concat2("--text-", tail.as_str()))
    } else if starts_with(path, "fontFamily.") {
        Some(concat2("--font-", hyphenate_theme_path(after_prefix(path, "fontFamily.")).as_str()))
    } else if starts_with(path, "borderRadius.") {
        Some(concat2("--radius-", hyphenate_theme_path(after_prefix(path, "borderRadius.")).as_str()))
    } else if starts_with(path, "boxShadow.") {
        Some(concat2("--shadow-", hyphenate_theme_path(after_prefix(path, "boxShadow.")).as_str()))
    } else if starts_with(path, "screens.") {
        Some(concat2("--breakpoint-", hyphenate_theme_path(after_prefix(path, "screens.")).as_str()))
    } else if starts_with(path, "maxWidth.") {
        Some(concat2("--container-", hyphenate_theme_path(after_prefix(path, "maxWidth.")).as_str()))
    } else {
        None
    }
}

/// The theme variable that the legacy path `path` names, when the theme defines it;
/// `spacing_valid` answers whether a `spacing.` path's value is a spacing step.
fn legacy_theme_path(design: &DesignSystem, path: &str, spacing_valid: bool) -> (r: Option<String>)
    ensures
        opt_text(r) == spec_legacy_theme_path(*design, path@, spacing_valid),
{
    if contains_char(path, ',') || contains_char(path, '/') {
        return None;
    }
    let normalized = normalize_legacy_theme_path(path);
    if starts_with(normalized.as_str(), "spacing.") {
        if spacing_valid && design.theme_value("--spacing").is_some() {
            return Some(concat3("--spacing(", after_prefix(normalized.as_str(), "spacing."), ")"));
        }
        return None;
    }
    match legacy_path_variable_exec(normalized.as_str()) {
        Some(variable) => {
            if design.theme_value(variable.as_str()).is_some() {
                Some(variable)
            } else {
                None
            }
        },
        None => None,
    }
}

fn spacing_query(path: &str) -> (r: Option<String>)
    ensures
        opt_text(r) == spec_spacing_query(path@),
{
    if contains_char(path, ',') || contains_char(path, '/') {
        return None;
    }
    let normalized = normalize_legacy_theme_path(path);
    if starts_with(normalized.as_str(), "spacing.") {
        Some(after_prefix(normalized.as_str(), "spacing.").to_owned())
    } else {
        None
    }
}

pub open spec fn opt_texts(v: Seq<Option<String>>) -> Seq<Option<Seq<char>>> {
    v.map_values(|o: Option<String>| opt_text(o))
}

/// The spacing questions of the legacy theme functions of `input`, one per closed `theme(..)`
/// in order: the value of a `spacing.` path, `None` for other paths.
pub fn theme_spacing_queries(input: &str) -> (r: Vec<Option<String>>)
    ensures
        opt_texts(r@) == theme_queries(input@, 0),
{
    let chars = chars_of(input);
    let needle = chars_of("theme(");
    let mut out: Vec<Option<String>> = Vec::new();
    let mut cursor: usize = 0;
    loop
        invariant
            chars@ == input@,
            needle@ == "theme("@,
            cursor <= chars@.len(),
            opt_texts(out@) + theme_queries(input@, cursor as int) == theme_queries(input@, 0),
        ensures
            opt_texts(out@) + theme_queries(input@, cursor as int) == theme_queries(input@, 0),
            theme_queries(input@, cursor as int) == Seq::<Option<Seq<char>>>::empty(),
        decreases chars@.len() - cursor,
    {
        proof {
            lemma_find_from_bounds(input@, needle@, cursor as int);
        }
        let start = match find_from_exec(&chars, &needle, cursor) {
            Some(start) => start,
            None => break,
        };
        proof {
            lemma_theme_open(input@, start as int);
        }
        let close = match matching_parenthesis(&chars, start + 5) {
            Some(close) => close,
            None => break,
        };
        let mut raw = String::new();
        push_range(&mut raw, &chars, start + 6, close);
        let path = trim(raw.as_str());
        let ghost before = opt_texts(out@);
        let query = spacing_query(path);
        out.push(query);
        assert(opt_texts(out@) =~= before.push(opt_text(query)));
        assert(opt_texts(out@) + theme_queries(input@, close + 1) =~= before + theme_queries(input@, cursor as int));
        cursor = close + 1;
    }
    assert(opt_texts(out@) =~= opt_texts(out@) + Seq::<Option<Seq<char>>>::empty());
    out
}

/// What replaces the `theme(..)` at `start..=close` of `chars`.
fn theme_piece(design: &DesignSystem, chars: &Vec<char>, start: usize, close: usize, valid: bool, in_variant: bool) -> (r: String)
    requires
        start + 6 <= close < chars.len(),
    ensures
        r@ == match spec_legacy_theme_path(*design, theme_path(chars@, start as int, close as int), valid) {
            Some(variable) => theme_replacement(variable, in_variant),
            None => chars@.subrange(start as int, close + 1),
        },
{
    let mut raw = String::new();
    push_range(&mut raw, chars, start + 6, close);
    let path = trim(raw.as_str());
    match legacy_theme_path(design, path, valid) {
        Some(variable) => {
            if starts_with(variable.as_str(), "--spacing(") {
                variable
            } else if in_variant {
                concat3("--theme(", variable.as_str(), ")")
            } else {
                concat3("var(", variable.as_str(), ")")
            }
        },
        None => {
            let mut kept = String::new();
            push_range(&mut kept, chars, start, close + 1);
            kept
        },
    }
}

/// `input` with each closed legacy `theme(..)` that names a theme variable written as that
/// variable: `var(..)`, or `--theme(..)` in a variant, and `--spacing(n)` for a spacing step.
/// `spacing_valid[k]` answers the `k`-th question of `theme_spacing_queries`.
pub fn rewrite_theme_functions(design: &DesignSystem, input: &str, in_variant: bool, spacing_valid: &Vec<bool>) -> (r: String)
    ensures
        r@ == spec_rewrite_theme_functions(*design, input@, in_variant, spacing_valid@),
{
    let chars = chars_of(input);
    let needle = chars_of("theme(");
    let mut out = String::new();
    let mut cursor: usize = 0;
    let mut k: usize = 0;
    loop
        invariant
            chars@ == input@,
            needle@ == "theme("@,
            cursor <= chars@.len(),
            k <= cursor,
            out@ + theme_scan(*design, input@, in_variant, spacing_valid@, cursor as int, k as int)
                == spec_rewrite_theme_functions(*design, input@, in_variant, spacing_valid@),
        ensures
            cursor <= chars@.len(),
            out@ + theme_scan(*design, input@, in_variant, spacing_valid@, cursor as int, k as int)
                == spec_rewrite_theme_functions(*design, input@, in_variant, spacing_valid@),
            theme_scan(*design, input@, in_variant, spacing_valid@, cursor as int, k as int)
                == input@.subrange(cursor as int, input@.len() as int),
        decreases chars@.len() - cursor,
    {
        proof {
            lemma_find_from_bounds(input@, needle@, cursor as int);
        }
        let start = match find_from_exec(&chars, &needle, cursor) {
            Some(start) => start,
            None => break,
        };
        proof {
            lemma_theme_open(input@, start as int);
        }
        let close = match matching_parenthesis(&chars, start + 5) {
            Some(close) => close,
            None => break,
        };
        let valid = k < spacing_valid.len() && spacing_valid[k];
        let piece = theme_piece(design, &chars, start, close, valid, in_variant);
        let ghost before = out@;
        push_range(&mut out, &chars, cursor, start);
        push_str(&mut out, piece.as_str());
        assert(out@ + theme_scan(*design, input@, in_variant, spacing_valid@, close + 1, k + 1)
            =~= before + theme_scan(*design, input@, in_variant, spacing_valid@, cursor as int, k as int));
        cursor = close + 1;
        k = k + 1;
    }
    let ghost before = out@;
    push_range(&mut out, &chars, cursor, chars.len());
    assert(out@ =~= before + theme_scan(*design, input@, in_variant, spacing_valid@, cursor as int, k as int));
    out
}

} // verus!
