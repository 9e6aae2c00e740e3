//! Tailwind candidates: a class name parsed against a design system into its variants, its
//! utility (static, functional with a value, or an arbitrary property) and its modifiers, and
//! printed back.

use vstd::prelude::*;
use crate::segment::{decode_arbitrary, decode_from, is_valid_arbitrary, segment, spec_decode_arbitrary, spec_is_valid_arbitrary, spec_segment, var_call_at};
use crate::design_system::DesignSystem;
use crate::variants::{Compounds, VariantRegistration};
use crate::text::{chars_of, is_prefix, is_whitespace, push_char, push_str, str_eq, trim, trim_ws, views};

verus! {

/// A modifier after `/`: an arbitrary value (`[..]`, or a variable from `(--..)`) or a name.
#[derive(Clone)]
pub enum Modifier {
    Arbitrary(String),
    Named(String),
}

/// The model of a modifier.
pub enum ModifierModel {
    Arbitrary(Seq<char>),
    Named(Seq<char>),
}

impl View for Modifier {
    type V = ModifierModel;

    open spec fn view(&self) -> ModifierModel {
        match self {
            Modifier::Arbitrary(v) => ModifierModel::Arbitrary(v@),
            Modifier::Named(v) => ModifierModel::Named(v@),
        }
    }
}

impl Modifier {
    /// The modifier's text.
    pub fn value(&self) -> (r: &str)
        ensures
            r@ == match self@ {
                ModifierModel::Arbitrary(v) => v,
                ModifierModel::Named(v) => v,
            },
    {
        match self {
            Modifier::Arbitrary(value) => value.as_str(),
            Modifier::Named(value) => value.as_str(),
        }
    }
}

/// An arbitrary value, with its data type hint if it has one.
#[derive(Clone)]
pub struct ArbitraryValue {
    pub data_type: Option<String>,
    pub value: String,
}

/// A named value, with the fraction it forms with a named modifier (`1/2`).
#[derive(Clone)]
pub struct NamedValue {
    pub value: String,
    pub fraction: Option<String>,
}

/// The value of a functional utility.
#[derive(Clone)]
pub enum CandidateValue {
    Arbitrary(ArbitraryValue),
    Named(NamedValue),
}

/// The model of a utility value.
pub enum CandidateValueModel {
    Arbitrary { data_type: Option<Seq<char>>, value: Seq<char> },
    Named { value: Seq<char>, fraction: Option<Seq<char>> },
}

pub open spec fn opt_text(o: Option<String>) -> Option<Seq<char>> {
    match o {
        Some(t) => Some(t@),
        None => None,
    }
}

impl View for CandidateValue {
    type V = CandidateValueModel;

    open spec fn view(&self) -> CandidateValueModel {
        match self {
            CandidateValue::Arbitrary(a) => CandidateValueModel::Arbitrary { data_type: opt_text(a.data_type), value: a.value@ },
            CandidateValue::Named(n) => CandidateValueModel::Named { value: n.value@, fraction: opt_text(n.fraction) },
        }
    }
}

/// The value of a functional variant.
#[derive(Clone)]
pub enum VariantValue {
    Arbitrary(String),
    Named(String),
}

/// The model of a variant value.
pub enum VariantValueModel {
    Arbitrary(Seq<char>),
    Named(Seq<char>),
}

impl View for VariantValue {
    type V = VariantValueModel;

    open spec fn view(&self) -> VariantValueModel {
        match self {
            VariantValue::Arbitrary(v) => VariantValueModel::Arbitrary(v@),
            VariantValue::Named(v) => VariantValueModel::Named(v@),
        }
    }
}

pub open spec fn opt_modifier(o: Option<Modifier>) -> Option<ModifierModel> {
    match o {
        Some(m) => Some(m@),
        None => None,
    }
}

pub open spec fn opt_candidate_value(o: Option<CandidateValue>) -> Option<CandidateValueModel> {
    match o {
        Some(v) => Some(v@),
        None => None,
    }
}

pub open spec fn opt_variant_value(o: Option<VariantValue>) -> Option<VariantValueModel> {
    match o {
        Some(v) => Some(v@),
        None => None,
    }
}

/// Whether a name is a valid named value or modifier: nonempty, made of ASCII letters, digits,
/// `_`, `.`, `%` and `-`.
pub open spec fn spec_is_valid_named(s: Seq<char>) -> bool {
    s.len() > 0 && forall|k: int| 0 <= k < s.len() ==> is_named_char(#[trigger] s[k])
}

pub open spec fn is_named_char(c: char) -> bool {
    ('a' <= c <= 'z') || ('A' <= c <= 'Z') || ('0' <= c <= '9') || c == '_' || c == '.' || c == '%' || c == '-'
}

pub fn is_valid_named(input: &str) -> (r: bool)
    ensures
        r == spec_is_valid_named(input@),
{
    let chars = chars_of(input);
    if chars.len() == 0 {
        return false;
    }
    let mut k: usize = 0;
    while k < chars.len()
        invariant
            chars@ == input@,
            k <= chars@.len(),
            forall|j: int| 0 <= j < k ==> is_named_char(#[trigger] input@[j]),
        decreases chars.len() - k,
    {
        let c = chars[k];
        if !(('a' <= c && c <= 'z') || ('A' <= c && c <= 'Z') || ('0' <= c && c <= '9') || c == '_' || c == '.' || c == '%' || c == '-') {
            assert(!is_named_char(input@[k as int]));
            return false;
        }
        k = k + 1;
    }
    true
}

/// The text between the delimiters `open` and `close` that enclose `s`, if they do.
pub open spec fn enclosed(s: Seq<char>, open: char, close: char) -> Option<Seq<char>> {
    if s.len() >= 2 && s[0] == open && s[s.len() - 1] == close { Some(s.subrange(1, s.len() - 1)) } else { None }
}

fn enclosed_exec(s: &str, open: char, close: char) -> (r: Option<&str>)
    ensures
        match r {
            Some(body) => enclosed(s@, open, close) == Some(body@),
            None => enclosed(s@, open, close) is None,
        },
{
    let n = s.unicode_len();
    if n >= 2 && s.get_char(0) == open && s.get_char(n - 1) == close {
        Some(s.substring_char(1, n - 1))
    } else {
        None
    }
}

/// The variable that a `var(..)` value reads.
pub open spec fn spec_css_variable(v: Seq<char>) -> Option<Seq<char>> {
    if v.len() >= 5 && is_prefix("var("@, v) && v[v.len() - 1] == ')' { Some(v.subrange(4, v.len() - 1)) } else { None }
}

pub fn css_variable(value: &str) -> (r: Option<&str>)
    ensures
        match r {
            Some(v) => spec_css_variable(value@) == Some(v@),
            None => spec_css_variable(value@) is None,
        },
{
    proof {
        reveal_strlit("var(");
    }
    let n = value.unicode_len();
    if n >= 5 && crate::text::starts_with(value, "var(") && value.get_char(n - 1) == ')' {
        Some(value.substring_char(4, n - 1))
    } else {
        proof {
            if n >= 5 && is_prefix("var("@, value@) && value@[n - 1] == ')' {
                assert(false);
            }
        }
        None
    }
}

/// Whether a text is empty or only whitespace.
pub open spec fn is_blank(s: Seq<char>) -> bool {
    trim_ws(s).len() == 0
}

/// An arbitrary value printed back: spaces as underscores, underscores escaped.
pub open spec fn spec_print_arbitrary(s: Seq<char>) -> Seq<char>
    decreases s.len(),
{
    if s.len() == 0 {
        Seq::empty()
    } else {
        let c = s.last();
        spec_print_arbitrary(s.drop_last()) + if c == '_' { seq!['\\', '_'] } else if c == ' ' { seq!['_'] } else { seq![c] }
    }
}

pub fn print_arbitrary(input: &str) -> (r: String)
    ensures
        r@ == spec_print_arbitrary(input@),
{
    let chars = chars_of(input);
    let mut output = String::new();
    let mut k: usize = 0;
    while k < chars.len()
        invariant
            chars@ == input@,
            k <= chars@.len(),
            output@ == spec_print_arbitrary(input@.take(k as int)),
        decreases chars.len() - k,
    {
        assert(input@.take(k + 1).drop_last() =~= input@.take(k as int));
        let c = chars[k];
        if c == '_' {
            push_char(&mut output, '\\');
            push_char(&mut output, '_');
        } else if c == ' ' {
            push_char(&mut output, '_');
        } else {
            push_char(&mut output, c);
        }
        k = k + 1;
    }
    assert(input@.take(k as int) =~= input@);
    output
}

/// How one character of an arbitrary value is printed.
pub open spec fn printed_char(c: char) -> Seq<char> {
    if c == '_' { seq!['\\', '_'] } else if c == ' ' { seq!['_'] } else { seq![c] }
}

proof fn lemma_print_prepend(c: char, t: Seq<char>)
    ensures
        spec_print_arbitrary(seq![c] + t) == printed_char(c) + spec_print_arbitrary(t),
    decreases t.len(),
{
    let u = seq![c] + t;
    if t.len() == 0 {
        assert(u.drop_last() =~= Seq::<char>::empty());
        assert(spec_print_arbitrary(u) == spec_print_arbitrary(u.drop_last()) + printed_char(u.last()));
        assert(printed_char(c) + spec_print_arbitrary(t) =~= printed_char(c));
        assert(Seq::<char>::empty() + printed_char(c) =~= printed_char(c));
    } else {
        assert(u.drop_last() =~= seq![c] + t.drop_last());
        assert(u.last() == t.last());
        lemma_print_prepend(c, t.drop_last());
        assert(spec_print_arbitrary(u) == spec_print_arbitrary(u.drop_last()) + printed_char(u.last()));
        assert(spec_print_arbitrary(t) == spec_print_arbitrary(t.drop_last()) + printed_char(t.last()));
        assert(printed_char(c) + spec_print_arbitrary(t.drop_last()) + printed_char(t.last())
            =~= printed_char(c) + (spec_print_arbitrary(t.drop_last()) + printed_char(t.last())));
    }
}

proof fn lemma_printed_starts(t: Seq<char>, c: char)
    requires
        spec_print_arbitrary(t).len() > 0,
        spec_print_arbitrary(t)[0] == c,
        c != '\\',
        c != '_',
    ensures
        t.len() > 0,
        t[0] == c,
        spec_print_arbitrary(t) == seq![c] + spec_print_arbitrary(t.drop_first()),
{
    if t.len() > 0 {
        assert(t =~= seq![t[0]] + t.drop_first());
        lemma_print_prepend(t[0], t.drop_first());
    }
}

proof fn lemma_decode_shift(x: Seq<char>, y: Seq<char>, j: int, depth: nat, first: bool)
    requires
        0 <= j,
    ensures
        decode_from(x + y, x.len() + j, depth, first) == decode_from(y, j, depth, first),
    decreases y.len() - j,
{
    let s = x + y;
    let i = x.len() + j;
    if j < y.len() {
        assert(s[i] == y[j]);
        if j + 1 < y.len() {
            assert(s[i + 1] == y[j + 1]);
        }
        if j + 3 < y.len() {
            assert(s[i + 2] == y[j + 2] && s[i + 3] == y[j + 3]);
        }
        assert(var_call_at(s, i) == var_call_at(y, j));
        if y[j] == '\\' && j + 1 < y.len() && y[j + 1] == '_' {
            lemma_decode_shift(x, y, j + 2, depth, first);
        } else if var_call_at(y, j) {
            lemma_decode_shift(x, y, j + 4, depth + 1, true);
        } else if y[j] == '_' {
            lemma_decode_shift(x, y, j + 1, depth, first);
        } else if y[j] == ',' && depth > 0 {
            lemma_decode_shift(x, y, j + 1, depth, false);
        } else if y[j] == ')' && depth > 0 {
            lemma_decode_shift(x, y, j + 1, (depth - 1) as nat, false);
        } else {
            lemma_decode_shift(x, y, j + 1, depth, first);
        }
    }
}

/// Whether `s` holds no `var(`.
pub open spec fn has_no_var_call(s: Seq<char>) -> bool {
    forall|i: int| !#[trigger] var_call_at(s, i)
}

/// Decoding a printed arbitrary value gives it back, when the value holds no `var(` (whose
/// first argument keeps its underscores) and no backslash.
pub proof fn printed_arbitrary_decodes_back(s: Seq<char>)
    requires
        has_no_var_call(s),
        !s.contains('\\'),
    ensures
        spec_decode_arbitrary(spec_print_arbitrary(s)) == s,
    decreases s.len(),
{
    if s.len() == 0 {
        assert(spec_print_arbitrary(s) =~= Seq::<char>::empty());
        assert(spec_decode_arbitrary(Seq::<char>::empty()) =~= s);
    } else {
        let c = s[0];
        let t = s.drop_first();
        assert(s =~= seq![c] + t);
        lemma_print_prepend(c, t);
        assert forall|i: int| !#[trigger] var_call_at(t, i) by {
            if var_call_at(t, i) {
                assert(var_call_at(s, i + 1));
            }
        }
        if t.contains('\\') {
            let k = choose|k: int| 0 <= k < t.len() && t[k] == '\\';
            assert(s[k + 1] == '\\');
        }
        printed_arbitrary_decodes_back(t);
        let q = spec_print_arbitrary(t);
        let m = printed_char(c);
        let p = m + q;
        assert(spec_print_arbitrary(s) == p);
        lemma_decode_shift(m, q, 0, 0, false);
        assert(decode_from(p, m.len() as int, 0, false) == t);
        if c == '_' {
            assert(p[0] == '\\' && p[1] == '_');
        } else if c == ' ' {
            assert(p[0] == '_');
            assert(!var_call_at(p, 0));
        } else {
            assert(c != '\\') by {
                assert(s[0] == c);
            }
            assert(p[0] == c);
            if var_call_at(p, 0) {
                assert(q[0] == 'a');
                lemma_printed_starts(t, 'a');
                let q1 = spec_print_arbitrary(t.drop_first());
                assert(q1[0] == 'r');
                lemma_printed_starts(t.drop_first(), 'r');
                let q2 = spec_print_arbitrary(t.drop_first().drop_first());
                assert(q2[0] == '(');
                lemma_printed_starts(t.drop_first().drop_first(), '(');
                assert(var_call_at(s, 0));
            }
        }
        assert(decode_from(p, 0, 0, false) =~= seq![c] + t);
    }
}

/// A modifier printed back, with its slash.
pub open spec fn spec_print_modifier(m: Option<ModifierModel>) -> Seq<char> {
    match m {
        None => Seq::empty(),
        Some(ModifierModel::Named(v)) => seq!['/'] + v,
        Some(ModifierModel::Arbitrary(v)) => match spec_css_variable(v) {
            Some(variable) => seq!['/', '('] + spec_print_arbitrary(variable) + seq![')'],
            None => seq!['/', '['] + spec_print_arbitrary(v) + seq![']'],
        },
    }
}

pub fn print_modifier(modifier: Option<&Modifier>) -> (r: String)
    ensures
        r@ == spec_print_modifier(match modifier { Some(m) => Some(m@), None => None }),
{
    let mut output = String::new();
    match modifier {
        None => {},
        Some(Modifier::Named(value)) => {
            push_char(&mut output, '/');
            push_str(&mut output, value.as_str());
        },
        Some(Modifier::Arbitrary(value)) => {
            push_char(&mut output, '/');
            match css_variable(value.as_str()) {
                Some(variable) => {
                    push_char(&mut output, '(');
                    let printed = print_arbitrary(variable);
                    push_str(&mut output, printed.as_str());
                    push_char(&mut output, ')');
                },
                None => {
                    push_char(&mut output, '[');
                    let printed = print_arbitrary(value.as_str());
                    push_str(&mut output, printed.as_str());
                    push_char(&mut output, ']');
                },
            }
        },
    }
    output
}

/// The data type hint of an arbitrary value (`color:red`): a nonempty run of lowercase letters
/// and dashes before its first colon, and the rest after the colon.
pub open spec fn spec_type_hint(v: Seq<char>) -> Option<(Seq<char>, Seq<char>)> {
    match hint_end(v, 0) {
        Some(i) => if i > 0 { Some((v.subrange(0, i), v.subrange(i + 1, v.len() as int))) } else { None },
        None => None,
    }
}

/// The index of the first colon from `i` on, when only dashes and lowercase letters come
/// before it.
pub open spec fn hint_end(v: Seq<char>, i: int) -> Option<int>
    decreases v.len() - i,
{
    if i < 0 || i >= v.len() {
        None
    } else if v[i] == ':' {
        Some(i)
    } else if v[i] != '-' && !('a' <= v[i] <= 'z') {
        None
    } else {
        hint_end(v, i + 1)
    }
}

pub proof fn lemma_hint_end_bounds(v: Seq<char>, i: int)
    requires
        0 <= i,
    ensures
        hint_end(v, i) matches Some(e) ==> i <= e < v.len(),
    decreases v.len() - i,
{
    if i < v.len() && v[i] != ':' && !(v[i] != '-' && !('a' <= v[i] <= 'z')) {
        lemma_hint_end_bounds(v, i + 1);
    }
}

pub fn type_hint(value: &str) -> (r: Option<(&str, &str)>)
    ensures
        match r {
            Some((hint, rest)) => spec_type_hint(value@) == Some((hint@, rest@)),
            None => spec_type_hint(value@) is None,
        },
{
    let chars = chars_of(value);
    let n = chars.len();
    let mut k: usize = 0;
    while k < n
        invariant
            chars@ == value@,
            n == value@.len(),
            k <= n,
            hint_end(value@, 0) == hint_end(value@, k as int),
        decreases n - k,
    {
        let c = chars[k];
        if c == ':' {
            if k > 0 {
                return Some((value.substring_char(0, k), value.substring_char(k + 1, n)));
            }
            return None;
        }
        if c != '-' && !('a' <= c && c <= 'z') {
            return None;
        }
        k = k + 1;
    }
    None
}

fn is_blank_exec(s: &str) -> (r: bool)
    ensures
        r == is_blank(s@),
{
    trim(s).unicode_len() == 0
}

/// `var(<variable>)`.
pub open spec fn var_of(v: Seq<char>) -> Seq<char> {
    "var("@ + v + seq![')']
}

fn var_exec(v: &str) -> (r: String)
    ensures
        r@ == var_of(v@),
{
    let mut out = "var(".to_owned();
    push_str(&mut out, v);
    push_char(&mut out, ')');
    out
}

/// A modifier as written after `/`: `[value]`, `(--variable)` or a name.
pub open spec fn spec_parse_modifier(input: Seq<char>) -> Option<ModifierModel> {
    match enclosed(input, '[', ']') {
        Some(body) => {
            let v = spec_decode_arbitrary(body);
            if is_blank(v) || !spec_is_valid_arbitrary(v) { None } else { Some(ModifierModel::Arbitrary(v)) }
        },
        None => match enclosed(input, '(', ')') {
            Some(v) => if !is_prefix("--"@, v) || !spec_is_valid_arbitrary(v) { None } else { Some(ModifierModel::Arbitrary(var_of(v))) },
            None => if spec_is_valid_named(input) { Some(ModifierModel::Named(input)) } else { None },
        },
    }
}

pub fn parse_modifier(input: &str) -> (r: Option<Modifier>)
    ensures
        opt_modifier(r) == spec_parse_modifier(input@),
{
    proof {
        reveal_strlit("--");
    }
    match enclosed_exec(input, '[', ']') {
        Some(body) => {
            let value = decode_arbitrary(body);
            if is_blank_exec(value.as_str()) || !is_valid_arbitrary(value.as_str()) {
                return None;
            }
            return Some(Modifier::Arbitrary(value));
        },
        None => {},
    }
    match enclosed_exec(input, '(', ')') {
        Some(value) => {
            if !crate::text::starts_with(value, "--") || !is_valid_arbitrary(value) {
                return None;
            }
            return Some(Modifier::Arbitrary(var_exec(value)));
        },
        None => {},
    }
    if is_valid_named(input) {
        Some(Modifier::Named(input.to_owned()))
    } else {
        None
    }
}

/// The value of a functional utility as written after its root: `[value]` with an optional type
/// hint, `(--variable)` or `(type:--variable)`, or a name, which with a named modifier forms a
/// fraction.
pub open spec fn spec_parse_candidate_value(input: Seq<char>, modifier_segment: Option<Seq<char>>, modifier: Option<ModifierModel>) -> Option<CandidateValueModel> {
    match enclosed(input, '[', ']') {
        Some(body) => {
            let decoded = spec_decode_arbitrary(body);
            if is_blank(decoded) || !spec_is_valid_arbitrary(decoded) {
                None
            } else {
                let (data_type, value) = match spec_type_hint(decoded) {
                    Some((hint, rest)) => (Some(hint), rest),
                    None => (None, decoded),
                };
                if is_blank(value) { None } else { Some(CandidateValueModel::Arbitrary { data_type, value }) }
            }
        },
        None => match enclosed(input, '(', ')') {
            Some(body) => {
                let parts = spec_segment(body, ':');
                if parts.len() != 1 && parts.len() != 2 {
                    None
                } else {
                    let data_type = if parts.len() == 2 { Some(parts[0]) } else { None };
                    let variable = parts.last();
                    if !is_prefix("--"@, variable) || !spec_is_valid_arbitrary(variable) {
                        None
                    } else {
                        Some(CandidateValueModel::Arbitrary { data_type, value: var_of(variable) })
                    }
                }
            },
            None => if !spec_is_valid_named(input) {
                None
            } else {
                let fraction = match (modifier_segment, modifier) {
                    (Some(segment), Some(ModifierModel::Named(_))) => Some(input + seq!['/'] + segment),
                    _ => None,
                };
                Some(CandidateValueModel::Named { value: input, fraction })
            },
        },
    }
}

pub fn parse_candidate_value(input: &str, modifier_segment: Option<&str>, modifier: Option<&Modifier>) -> (r: Option<CandidateValue>)
    ensures
        opt_candidate_value(r) == spec_parse_candidate_value(input@, match modifier_segment { Some(m) => Some(m@), None => None }, match modifier { Some(m) => Some(m@), None => None }),
{
    proof {
        reveal_strlit("--");
    }
    match enclosed_exec(input, '[', ']') {
        Some(body) => {
            let decoded = decode_arbitrary(body);
            if is_blank_exec(decoded.as_str()) || !is_valid_arbitrary(decoded.as_str()) {
                return None;
            }
            let (data_type, value) = match type_hint(decoded.as_str()) {
                Some((hint, rest)) => (Some(hint.to_owned()), rest.to_owned()),
                None => (None, decoded.clone()),
            };
            if is_blank_exec(value.as_str()) {
                return None;
            }
            return Some(CandidateValue::Arbitrary(ArbitraryValue { data_type, value }));
        },
        None => {},
    }
    match enclosed_exec(input, '(', ')') {
        Some(body) => {
            let parts = segment(body, 58u8);
            assert(58u8 as char == ':');
            if parts.len() != 1 && parts.len() != 2 {
                return None;
            }
            let data_type = if parts.len() == 2 { Some(parts[0].to_owned()) } else { None };
            let variable = parts[parts.len() - 1];
            assert(views(parts@).last() == variable@);
            if !crate::text::starts_with(variable, "--") || !is_valid_arbitrary(variable) {
                return None;
            }
            return Some(CandidateValue::Arbitrary(ArbitraryValue { data_type, value: var_exec(variable) }));
        },
        None => {},
    }
    if !is_valid_named(input) {
        return None;
    }
    let ghost seg_view = match modifier_segment { Some(m) => Some(m@), None => None };
    let ghost mod_view = match modifier { Some(m) => Some(m@), None => None };
    let fraction = match modifier_segment {
        Some(segment) => match modifier {
            Some(Modifier::Named(_)) => {
                let mut f = input.to_owned();
                push_char(&mut f, '/');
                push_str(&mut f, segment);
                assert(f@ == input@ + seq!['/'] + segment@);
                Some(f)
            },
            _ => None,
        },
        None => None,
    };
    assert(opt_text(fraction) == match (seg_view, mod_view) {
        (Some(segment), Some(ModifierModel::Named(_))) => Some(input@ + seq!['/'] + segment),
        _ => None,
    });
    let named = NamedValue { value: input.to_owned(), fraction };
    assert(named.value@ == input@);
    Some(CandidateValue::Named(named))
}

/// The value of a functional variant: `[value]`, `(--variable)` or a name.
pub open spec fn spec_parse_variant_value(input: Seq<char>) -> Option<VariantValueModel> {
    match enclosed(input, '[', ']') {
        Some(body) => {
            let v = spec_decode_arbitrary(body);
            if is_blank(v) || !spec_is_valid_arbitrary(v) { None } else { Some(VariantValueModel::Arbitrary(v)) }
        },
        None => match enclosed(input, '(', ')') {
            Some(body) => {
                let v = spec_decode_arbitrary(body);
                if !is_prefix("--"@, v) || !spec_is_valid_arbitrary(v) { None } else { Some(VariantValueModel::Arbitrary(var_of(v))) }
            },
            None => if spec_is_valid_named(input) { Some(VariantValueModel::Named(input)) } else { None },
        },
    }
}

pub fn parse_variant_value(input: &str) -> (r: Option<VariantValue>)
    ensures
        opt_variant_value(r) == spec_parse_variant_value(input@),
{
    proof {
        reveal_strlit("--");
    }
    match enclosed_exec(input, '[', ']') {
        Some(body) => {
            let value = decode_arbitrary(body);
            if is_blank_exec(value.as_str()) || !is_valid_arbitrary(value.as_str()) {
                return None;
            }
            return Some(VariantValue::Arbitrary(value));
        },
        None => {},
    }
    match enclosed_exec(input, '(', ')') {
        Some(body) => {
            let value = decode_arbitrary(body);
            if !crate::text::starts_with(value.as_str(), "--") || !is_valid_arbitrary(value.as_str()) {
                return None;
            }
            return Some(VariantValue::Arbitrary(var_exec(value.as_str())));
        },
        None => {},
    }
    if is_valid_named(input) {
        Some(VariantValue::Named(input.to_owned()))
    } else {
        None
    }
}

/// What a root names: a functional utility or a variant.
#[derive(Clone, Copy, PartialEq, Eq, Structural)]
pub enum RootKind {
    Utility,
    Variant,
}

/// Whether the design system has a root of the kind.
pub open spec fn spec_root_exists(design: DesignSystem, kind: RootKind, root: Seq<char>) -> bool {
    match kind {
        RootKind::Utility => design.spec_has_functional_utility(root),
        RootKind::Variant => design.spec_variant_registration(root) is Some,
    }
}

fn root_exists(design: &DesignSystem, kind: RootKind, root: &str) -> (r: bool)
    ensures
        r == spec_root_exists(*design, kind, root@),
{
    match kind {
        RootKind::Utility => design.has_functional_utility(root),
        RootKind::Variant => design.variant_registration(root).is_some(),
    }
}

/// The index of the last `-` before `end`.
pub open spec fn last_dash(s: Seq<char>, end: int) -> Option<int>
    decreases end,
{
    if end <= 0 || end > s.len() {
        None
    } else if s[end - 1] == '-' {
        Some(end - 1)
    } else {
        last_dash(s, end - 1)
    }
}

pub proof fn lemma_last_dash_bounds(s: Seq<char>, end: int)
    ensures
        last_dash(s, end) matches Some(i) ==> 0 <= i < end && i < s.len() && s[i] == '-',
    decreases end,
{
    if 0 < end <= s.len() && s[end - 1] != '-' {
        lemma_last_dash_bounds(s, end - 1);
    }
}

/// The roots found at the dashes before `end`, from the last dash backwards: a known root with
/// a nonempty value is a candidate; the search stops at a root with an empty value or at `@`.
pub open spec fn roots_scan(s: Seq<char>, design: DesignSystem, kind: RootKind, end: int) -> Seq<(Seq<char>, Option<Seq<char>>)>
    decreases end,
{
    match last_dash(s, end) {
        None => Seq::empty(),
        Some(i) => {
            proof {
                lemma_last_dash_bounds(s, end);
            }
            if i <= 0 {
                Seq::empty()
            } else {
                let root = s.subrange(0, i);
                let value = s.subrange(i + 1, s.len() as int);
                if spec_root_exists(design, kind, root) {
                    if value.len() == 0 || root == seq!['@'] {
                        Seq::empty()
                    } else {
                        seq![(root, Some(value))] + roots_scan(s, design, kind, i)
                    }
                } else {
                    roots_scan(s, design, kind, i)
                }
            }
        },
    }
}

/// The ways to split `s` into a known root and a value: the whole of it, each dash from the
/// last, and an `@` prefix.
pub open spec fn spec_find_roots(s: Seq<char>, design: DesignSystem, kind: RootKind) -> Seq<(Seq<char>, Option<Seq<char>>)> {
    (if spec_root_exists(design, kind, s) { seq![(s, None::<Seq<char>>)] } else { Seq::empty() })
        + roots_scan(s, design, kind, s.len() as int)
        + (if s.len() > 0 && s[0] == '@' && spec_root_exists(design, kind, seq!['@']) { seq![(seq!['@'], Some(s.drop_first()))] } else { Seq::empty() })
}

pub open spec fn root_views(v: Seq<(&str, Option<&str>)>) -> Seq<(Seq<char>, Option<Seq<char>>)> {
    v.map_values(|r: (&str, Option<&str>)| (r.0@, match r.1 { Some(x) => Some(x@), None => None }))
}

pub fn find_roots<'a>(input: &'a str, design: &DesignSystem, kind: RootKind) -> (r: Vec<(&'a str, Option<&'a str>)>)
    ensures
        root_views(r@) == spec_find_roots(input@, *design, kind),
{
    let chars = chars_of(input);
    let n = chars.len();
    let ghost s = input@;
    let mut roots: Vec<(&'a str, Option<&'a str>)> = Vec::new();
    if root_exists(design, kind, input) {
        roots.push((input, None));
    }
    let ghost head = root_views(roots@);
    assert(head =~= (if spec_root_exists(*design, kind, s) { seq![(s, None::<Seq<char>>)] } else { Seq::empty() }));
    let mut search_end: usize = n;
    loop
        invariant
            chars@ == s,
            s == input@,
            n == s.len(),
            search_end <= n,
            root_views(roots@) + roots_scan(s, *design, kind, search_end as int) == head + roots_scan(s, *design, kind, n as int),
        ensures
            root_views(roots@) == head + roots_scan(s, *design, kind, n as int),
        decreases search_end,
    {
        let mut i = search_end;
        while i > 0 && chars[i - 1] != '-'
            invariant
                chars@ == s,
                n == s.len(),
                i <= search_end <= n,
                last_dash(s, i as int) == last_dash(s, search_end as int),
            decreases i,
        {
            i = i - 1;
        }
        if i == 0 {
            assert(roots_scan(s, *design, kind, search_end as int) =~= Seq::<(Seq<char>, Option<Seq<char>>)>::empty());
            assert(root_views(roots@) + Seq::empty() =~= root_views(roots@));
            break;
        }
        let index = i - 1;
        assert(last_dash(s, search_end as int) == Some(index as int));
        if index == 0 {
            assert(root_views(roots@) + Seq::empty() =~= root_views(roots@));
            break;
        }
        let root = input.substring_char(0, index);
        let value = input.substring_char(index + 1, n);
        if root_exists(design, kind, root) {
            proof {
                reveal_strlit("@");
                assert("@"@ =~= seq!['@']);
            }
            if value.unicode_len() == 0 || str_eq(root, "@") {
                assert(root_views(roots@) + Seq::empty() =~= root_views(roots@));
                break;
            }
            let ghost before = root_views(roots@);
            roots.push((root, Some(value)));
            assert(root_views(roots@) =~= before + seq![(root@, Some(value@))]);
            assert(before + (seq![(root@, Some(value@))] + roots_scan(s, *design, kind, index as int))
                =~= root_views(roots@) + roots_scan(s, *design, kind, index as int));
        }
        search_end = index;
    }
    proof {
        reveal_strlit("@");
        assert("@"@ =~= seq!['@']);
    }
    if n > 0 && chars[0] == '@' && root_exists(design, kind, "@") {
        let ghost before = root_views(roots@);
        let rest = input.substring_char(1, n);
        assert(rest@ =~= s.drop_first());
        roots.push(("@", Some(rest)));
        assert(root_views(roots@) =~= before + seq![(seq!['@'], Some(s.drop_first()))]);
    } else {
        assert(root_views(roots@) + Seq::empty() =~= root_views(roots@));
    }
    roots
}

/// The ways to read `s` as a functional utility and its value. A value in brackets or
/// parentheses follows the first `-[` or `-(`.
pub open spec fn spec_find_utility_roots(s: Seq<char>, design: DesignSystem) -> Seq<(Seq<char>, Option<Seq<char>>)> {
    if s.len() > 0 && (s.last() == ']' || s.last() == ')') {
        let open = if s.last() == ']' { '[' } else { '(' };
        match first_pair(s, '-', open, 0) {
            None => Seq::empty(),
            Some(i) => {
                let root = s.subrange(0, i);
                if design.spec_has_functional_utility(root) { seq![(root, Some(s.subrange(i + 1, s.len() as int)))] } else { Seq::empty() }
            },
        }
    } else {
        spec_find_roots(s, design, RootKind::Utility)
    }
}

/// The first index from `i` on where `a` is followed by `b`.
pub open spec fn first_pair(s: Seq<char>, a: char, b: char, i: int) -> Option<int>
    decreases s.len() - i,
{
    if i < 0 || i + 1 >= s.len() {
        None
    } else if s[i] == a && s[i + 1] == b {
        Some(i)
    } else {
        first_pair(s, a, b, i + 1)
    }
}

fn first_pair_exec(chars: &Vec<char>, a: char, b: char) -> (r: Option<usize>)
    ensures
        match r {
            Some(i) => first_pair(chars@, a, b, 0) == Some(i as int) && i + 1 < chars@.len(),
            None => first_pair(chars@, a, b, 0) is None,
        },
{
    let mut i: usize = 0;
    while i < chars.len() && i + 1 < chars.len()
        invariant
            first_pair(chars@, a, b, 0) == first_pair(chars@, a, b, i as int),
        decreases chars.len() - i,
    {
        if chars[i] == a && chars[i + 1] == b {
            return Some(i);
        }
        i = i + 1;
    }
    None
}

pub fn find_utility_roots<'a>(input: &'a str, design: &DesignSystem) -> (r: Vec<(&'a str, Option<&'a str>)>)
    ensures
        root_views(r@) == spec_find_utility_roots(input@, *design),
{
    let chars = chars_of(input);
    let n = chars.len();
    if n > 0 && (chars[n - 1] == ']' || chars[n - 1] == ')') {
        let open = if chars[n - 1] == ']' { '[' } else { '(' };
        let mut roots: Vec<(&'a str, Option<&'a str>)> = Vec::new();
        match first_pair_exec(&chars, '-', open) {
            None => {
                assert(root_views(roots@) =~= Seq::<(Seq<char>, Option<Seq<char>>)>::empty());
            },
            Some(i) => {
                let root = input.substring_char(0, i);
                if design.has_functional_utility(root) {
                    roots.push((root, Some(input.substring_char(i + 1, n))));
                }
                assert(root_views(roots@) =~= spec_find_utility_roots(input@, *design));
            },
        }
        return roots;
    }
    find_roots(input, design, RootKind::Utility)
}

/// A variant, as parsed.
pub enum VariantKind {
    /// `[selector]`: an arbitrary selector or at-rule; `relative` when it starts with a
    /// combinator.
    Arbitrary { selector: String, relative: bool },
    Static { root: String },
    Functional { root: String, value: Option<VariantValue>, modifier: Option<Modifier> },
    /// A variant applied to another (`group-hover`), with the inner variant.
    Compound { root: String, variant: Box<Variant>, modifier: Option<Modifier> },
}

/// A parsed variant.
pub struct Variant {
    pub kind: VariantKind,
}

/// The model of a variant.
pub enum VariantModel {
    Arbitrary { selector: Seq<char>, relative: bool },
    Static { root: Seq<char> },
    Functional { root: Seq<char>, value: Option<VariantValueModel>, modifier: Option<ModifierModel> },
    Compound { root: Seq<char>, variant: Box<VariantModel>, modifier: Option<ModifierModel> },
}

pub open spec fn variant_model(v: Variant) -> VariantModel
    decreases v,
{
    match v.kind {
        VariantKind::Arbitrary { selector, relative } => VariantModel::Arbitrary { selector: selector@, relative },
        VariantKind::Static { root } => VariantModel::Static { root: root@ },
        VariantKind::Functional { root, value, modifier } => VariantModel::Functional { root: root@, value: opt_variant_value(value), modifier: opt_modifier(modifier) },
        VariantKind::Compound { root, variant, modifier } => VariantModel::Compound { root: root@, variant: Box::new(variant_model(*variant)), modifier: opt_modifier(modifier) },
    }
}

pub open spec fn opt_variant_model(o: Option<Variant>) -> Option<VariantModel> {
    match o {
        Some(v) => Some(variant_model(v)),
        None => None,
    }
}

/// The parts of a variant split at its top-level `/`.
pub open spec fn variant_parts(input: Seq<char>) -> Seq<Seq<char>> {
    spec_segment(input, '/')
}

/// The variant's candidate roots, for the part before its modifier.
pub open spec fn variant_roots(input: Seq<char>, design: DesignSystem) -> Seq<(Seq<char>, Option<Seq<char>>)> {
    spec_find_roots(variant_parts(input)[0], design, RootKind::Variant)
}

/// The modifier segment of a variant, if it has one.
pub open spec fn variant_modifier_segment(input: Seq<char>) -> Option<Seq<char>> {
    if variant_parts(input).len() == 2 { Some(variant_parts(input)[1]) } else { None }
}

pub proof fn lemma_roots_scan_shorter(s: Seq<char>, design: DesignSystem, kind: RootKind, end: int)
    ensures
        forall|k: int| 0 <= k < roots_scan(s, design, kind, end).len() ==>
            ((#[trigger] roots_scan(s, design, kind, end)[k]).1 matches Some(v) && v.len() + 1 < s.len()),
    decreases end,
{
    lemma_last_dash_bounds(s, end);
    match last_dash(s, end) {
        None => {},
        Some(i) => {
            if i > 0 {
                lemma_roots_scan_shorter(s, design, kind, i);
                let root = s.subrange(0, i);
                let value = s.subrange(i + 1, s.len() as int);
                let rest = roots_scan(s, design, kind, i);
                let all = roots_scan(s, design, kind, end);
                if spec_root_exists(design, kind, root) && !(value.len() == 0 || root == seq!['@']) {
                    assert forall|k: int| 0 <= k < all.len() implies ((#[trigger] all[k]).1 matches Some(v) && v.len() + 1 < s.len()) by {
                        if k > 0 {
                            assert(all[k] == rest[k - 1]);
                        }
                    }
                }
            }
        },
    }
}

pub proof fn lemma_find_roots_shorter(s: Seq<char>, design: DesignSystem, kind: RootKind)
    ensures
        forall|k: int| 0 <= k < spec_find_roots(s, design, kind).len() ==>
            ((#[trigger] spec_find_roots(s, design, kind)[k]).1 matches Some(v) ==> v.len() < s.len()),
{
    lemma_roots_scan_shorter(s, design, kind, s.len() as int);
    let head: Seq<(Seq<char>, Option<Seq<char>>)> = if spec_root_exists(design, kind, s) { seq![(s, None::<Seq<char>>)] } else { Seq::empty() };
    let scan = roots_scan(s, design, kind, s.len() as int);
    let tail: Seq<(Seq<char>, Option<Seq<char>>)> = if s.len() > 0 && s[0] == '@' && spec_root_exists(design, kind, seq!['@']) { seq![(seq!['@'], Some(s.drop_first()))] } else { Seq::empty() };
    let all = spec_find_roots(s, design, kind);
    assert(all == head + scan + tail);
    assert forall|k: int| 0 <= k < all.len() implies ((#[trigger] all[k]).1 matches Some(v) ==> v.len() < s.len()) by {
        if k < head.len() {
            assert(all[k] == head[k]);
        } else if k < head.len() + scan.len() {
            assert(all[k] == scan[k - head.len()]);
        } else {
            assert(all[k] == tail[k - head.len() - scan.len()]);
        }
    }
}

pub proof fn lemma_variant_parts(input: Seq<char>)
    ensures
        variant_parts(input).len() >= 1,
        variant_parts(input).len() == 1 ==> variant_parts(input)[0] == input,
        variant_parts(input).len() == 2 ==> input == variant_parts(input)[0] + seq!['/'] + variant_parts(input)[1],
{
    crate::segment::segment_rejoins(input, '/');
    let parts = variant_parts(input);
    if parts.len() == 2 {
        assert(parts.drop_first().len() == 1);
        assert(crate::text::join_with(parts.drop_first(), '/') == parts[1]);
    }
}

/// Whether a compound variant passes its modifier on to the variant inside it.
pub open spec fn forwards_modifier(root: Seq<char>) -> bool {
    root == "not"@ || root == "has"@ || root == "in"@
}

/// The compounds a parsed variant produces: an at-rule or a style rule for an arbitrary
/// variant, its registration's for the others.
pub open spec fn spec_variant_compounds(v: VariantModel, design: DesignSystem) -> Compounds {
    match v {
        VariantModel::Arbitrary { selector, .. } => if selector.len() > 0 && selector[0] == '@' { Compounds { bits: 2 } } else { Compounds { bits: 1 } },
        VariantModel::Static { root } => registration_compounds(design, root),
        VariantModel::Functional { root, .. } => registration_compounds(design, root),
        VariantModel::Compound { root, .. } => registration_compounds(design, root),
    }
}

pub open spec fn registration_compounds(design: DesignSystem, root: Seq<char>) -> Compounds {
    match design.spec_variant_registration(root) {
        Some(r) => r.spec_compounds(),
        None => Compounds { bits: 0 },
    }
}

/// An arbitrary variant `[body]`: refused for an at-rule with `&`; a plain selector is wrapped
/// in `&:is(..)`.
pub open spec fn spec_arbitrary_variant(body: Seq<char>) -> Option<VariantModel> {
    if is_prefix(seq!['@'], body) && body.contains('&') {
        None
    } else {
        let selector = spec_decode_arbitrary(body);
        if is_blank(selector) || !spec_is_valid_arbitrary(selector) {
            None
        } else {
            let relative = selector.len() > 0 && (selector[0] == '>' || selector[0] == '+' || selector[0] == '~');
            let wrapped = if !relative && !is_prefix(seq!['@'], selector) && !selector.contains('&') {
                "&:is("@ + selector + seq![')']
            } else {
                selector
            };
            Some(VariantModel::Arbitrary { selector: wrapped, relative })
        }
    }
}

/// A variant parsed against the design system: an arbitrary variant, or the first reading of
/// it as a known root (with its value and modifier) that fits the root's registration.
pub open spec fn spec_parse_variant(input: Seq<char>, design: DesignSystem) -> Option<VariantModel>
    decreases input.len(), 1int, 0int,
{
    match enclosed(input, '[', ']') {
        Some(body) => spec_arbitrary_variant(body),
        None => if variant_parts(input).len() > 2 {
            None
        } else {
            variant_from_roots(input, design, 0)
        },
    }
}

/// The variant for the roots of `input` from index `k` on.
pub open spec fn variant_from_roots(input: Seq<char>, design: DesignSystem, k: int) -> Option<VariantModel>
    decreases input.len(), 0int, variant_roots(input, design).len() - k,
{
    let roots = variant_roots(input, design);
    if k < 0 || k >= roots.len() {
        None
    } else {
        let (root, value) = roots[k];
        let modifier_segment = variant_modifier_segment(input);
        match design.spec_variant_registration(root) {
            None => None,
            Some(VariantRegistration::Static { .. }) =>
                if value is Some || modifier_segment is Some { None } else { Some(VariantModel::Static { root }) },
            Some(VariantRegistration::Functional { .. }) => {
                let modifier = match modifier_segment {
                    Some(raw) => spec_parse_modifier(raw),
                    None => None,
                };
                if modifier_segment is Some && modifier is None {
                    None
                } else {
                    match value {
                        None => Some(VariantModel::Functional { root, value: None, modifier }),
                        Some(raw) => {
                            let ends_square = raw.len() > 0 && raw.last() == ']' && !(raw[0] == '[');
                            let ends_paren = raw.len() > 0 && raw.last() == ')' && !(raw[0] == '(');
                            if ends_square || ends_paren {
                                variant_from_roots(input, design, k + 1)
                            } else if raw.len() > 0 && (raw[0] == '[' || raw[0] == '(') {
                                match spec_parse_variant_value(raw) {
                                    None => None,
                                    Some(v) => Some(VariantModel::Functional { root, value: Some(v), modifier }),
                                }
                            } else {
                                match spec_parse_variant_value(raw) {
                                    None => variant_from_roots(input, design, k + 1),
                                    Some(v) => Some(VariantModel::Functional { root, value: Some(v), modifier }),
                                }
                            }
                        },
                    }
                }
            },
            Some(VariantRegistration::Compound { compounds_with, .. }) => match value {
                None => None,
                Some(raw) => {
                    let forward = modifier_segment is Some && forwards_modifier(root);
                    let sub = if forward { raw + seq!['/'] + modifier_segment.unwrap() } else { raw };
                    let own_modifier = if forward { None } else { modifier_segment };
                    if sub.len() >= input.len() {
                        None
                    } else {
                        match spec_parse_variant(sub, design) {
                            None => None,
                            Some(variant) => {
                                if compounds_with.bits & spec_variant_compounds(variant, design).bits == 0 {
                                    None
                                } else {
                                    let modifier = match own_modifier {
                                        Some(m) => spec_parse_modifier(m),
                                        None => None,
                                    };
                                    if own_modifier is Some && modifier is None {
                                        None
                                    } else {
                                        Some(VariantModel::Compound { root, variant: Box::new(variant), modifier })
                                    }
                                }
                            },
                        }
                    }
                },
            },
        }
    }
}

fn arbitrary_variant(body: &str) -> (r: Option<Variant>)
    ensures
        opt_variant_model(r) == spec_arbitrary_variant(body@),
{
    proof {
        reveal_strlit("@");
        reveal_strlit("&:is(");
        assert("@"@ =~= seq!['@']);
    }
    if crate::text::starts_with(body, "@") && crate::text::contains_char(body, '&') {
        return None;
    }
    let selector = decode_arbitrary(body);
    if is_blank_exec(selector.as_str()) || !is_valid_arbitrary(selector.as_str()) {
        return None;
    }
    let n = selector.as_str().unicode_len();
    let relative = if n > 0 {
        let c = selector.as_str().get_char(0);
        c == '>' || c == '+' || c == '~'
    } else {
        false
    };
    let ghost sel = selector@;
    let wrap = !relative && !crate::text::starts_with(selector.as_str(), "@") && !crate::text::contains_char(selector.as_str(), '&');
    let wrapped = if wrap {
        let mut w = "&:is(".to_owned();
        push_str(&mut w, selector.as_str());
        push_char(&mut w, ')');
        w
    } else {
        selector
    };
    assert(wrapped@ == if wrap { "&:is("@ + sel + seq![')'] } else { sel });
    let v = Variant { kind: VariantKind::Arbitrary { selector: wrapped, relative } };
    assert(variant_model(v) == VariantModel::Arbitrary { selector: wrapped@, relative });
    Some(v)
}

fn variant_compounds(variant: &Variant, design: &DesignSystem) -> (r: Compounds)
    ensures
        r == spec_variant_compounds(variant_model(*variant), *design),
{
    match &variant.kind {
        VariantKind::Arbitrary { selector, .. } => {
            let n = selector.as_str().unicode_len();
            if n > 0 && selector.as_str().get_char(0) == '@' { Compounds::at_rules() } else { Compounds::style_rules() }
        },
        VariantKind::Static { root } => registration_compounds_exec(design, root.as_str()),
        VariantKind::Functional { root, .. } => registration_compounds_exec(design, root.as_str()),
        VariantKind::Compound { root, .. } => registration_compounds_exec(design, root.as_str()),
    }
}

fn registration_compounds_exec(design: &DesignSystem, root: &str) -> (r: Compounds)
    ensures
        r == registration_compounds(*design, root@),
{
    match design.variant_registration(root) {
        Some(registration) => registration.compounds(),
        None => Compounds::empty(),
    }
}

fn is_forwarding_root(root: &str) -> (r: bool)
    ensures
        r == forwards_modifier(root@),
{
    str_eq(root, "not") || str_eq(root, "has") || str_eq(root, "in")
}

impl Variant {
    /// The variant `input`, parsed against the design system's variants, if it is one.
    pub fn parse(input: &str, design: &DesignSystem) -> (r: Option<Variant>)
        ensures
            opt_variant_model(r) == spec_parse_variant(input@, *design),
        decreases input@.len(),
    {
        match enclosed_exec(input, '[', ']') {
            Some(body) => {
                return arbitrary_variant(body);
            },
            None => {},
        }
        let parts = segment(input, 47u8);
        assert(47u8 as char == '/');
        proof {
            lemma_variant_parts(input@);
        }
        if parts.len() > 2 {
            return None;
        }
        let base = parts[0];
        let modifier_segment: Option<&str> = if parts.len() == 2 { Some(parts[1]) } else { None };
        let roots = find_roots(base, design, RootKind::Variant);
        let ghost all = variant_roots(input@, *design);
        proof {
            assert(views(parts@)[0] == base@);
            lemma_find_roots_shorter(base@, *design, RootKind::Variant);
        }
        let mut k: usize = 0;
        while k < roots.len()
            invariant
                root_views(roots@) == all,
                all == variant_roots(input@, *design),
                variant_parts(input@)[0] == base@,
                variant_parts(input@).len() <= 2,
                variant_parts(input@).len() == 2 ==> input@ == base@ + seq!['/'] + variant_parts(input@)[1],
                variant_parts(input@).len() == 1 ==> input@ == base@,
                match modifier_segment { Some(m) => variant_modifier_segment(input@) == Some(m@), None => variant_modifier_segment(input@) is None },
                forall|j: int| 0 <= j < all.len() ==> ((#[trigger] all[j]).1 matches Some(v) ==> v.len() < base@.len()),
                k <= roots@.len(),
                spec_parse_variant(input@, *design) == variant_from_roots(input@, *design, k as int),
            decreases roots.len() - k,
        {
            let (root, value) = roots[k];
            assert(all[k as int] == (root@, match value { Some(x) => Some(x@), None => None }));
            match design.variant_registration(root) {
                None => {
                    return None;
                },
                Some(VariantRegistration::Static { .. }) => {
                    if value.is_some() || modifier_segment.is_some() {
                        return None;
                    }
                    return Some(Variant { kind: VariantKind::Static { root: root.to_owned() } });
                },
                Some(VariantRegistration::Functional { .. }) => {
                    let modifier = match modifier_segment {
                        Some(raw) => match parse_modifier(raw) {
                            Some(m) => Some(m),
                            None => {
                                return None;
                            },
                        },
                        None => None,
                    };
                    match value {
                        None => {
                            return Some(Variant { kind: VariantKind::Functional { root: root.to_owned(), value: None, modifier } });
                        },
                        Some(raw) => {
                            let n = raw.unicode_len();
                            let first = if n > 0 { raw.get_char(0) } else { ' ' };
                            let last = if n > 0 { raw.get_char(n - 1) } else { ' ' };
                            let ends_square = n > 0 && last == ']' && !(first == '[');
                            let ends_paren = n > 0 && last == ')' && !(first == '(');
                            if ends_square || ends_paren {
                                k = k + 1;
                                continue;
                            }
                            if n > 0 && (first == '[' || first == '(') {
                                return match parse_variant_value(raw) {
                                    None => None,
                                    Some(v) => Some(Variant { kind: VariantKind::Functional { root: root.to_owned(), value: Some(v), modifier } }),
                                };
                            }
                            match parse_variant_value(raw) {
                                None => {
                                    k = k + 1;
                                    continue;
                                },
                                Some(v) => {
                                    return Some(Variant { kind: VariantKind::Functional { root: root.to_owned(), value: Some(v), modifier } });
                                },
                            }
                        },
                    }
                },
                Some(VariantRegistration::Compound { compounds_with, .. }) => {
                    let raw = match value {
                        None => {
                            return None;
                        },
                        Some(raw) => raw,
                    };
                    let forward = modifier_segment.is_some() && is_forwarding_root(root);
                    let sub: String = if forward {
                        let mut forwarded = raw.to_owned();
                        push_char(&mut forwarded, '/');
                        match modifier_segment {
                            Some(m) => push_str(&mut forwarded, m),
                            None => {},
                        }
                        forwarded
                    } else {
                        raw.to_owned()
                    };
                    let own_modifier: Option<&str> = if forward { None } else { modifier_segment };
                    let ghost spec_sub = if forward { raw@ + seq!['/'] + variant_modifier_segment(input@).unwrap() } else { raw@ };
                    assert(sub@ == spec_sub);
                    assert(sub@.len() < input@.len());
                    let variant = match Variant::parse(sub.as_str(), design) {
                        None => {
                            return None;
                        },
                        Some(v) => v,
                    };
                    let compounds = variant_compounds(&variant, design);
                    assert(spec_parse_variant(spec_sub, *design) == Some(variant_model(variant)));
                    if !compounds_with.intersects(compounds) {
                        assert(variant_from_roots(input@, *design, k as int) is None);
                        return None;
                    }
                    let modifier = match own_modifier {
                        Some(m) => match parse_modifier(m) {
                            Some(parsed) => Some(parsed),
                            None => {
                                return None;
                            },
                        },
                        None => None,
                    };
                    return Some(Variant { kind: VariantKind::Compound { root: root.to_owned(), variant: Box::new(variant), modifier } });
                },
            }
        }
        None
    }
}

/// The selector of an arbitrary variant without the `&:is(..)` that parsing wrapped it in.
pub open spec fn unwrapped_selector(selector: Seq<char>) -> Seq<char> {
    let rest = selector.subrange(5, selector.len() as int);
    if selector.len() >= 5 && is_prefix("&:is("@, selector) && rest.len() > 0 && rest.last() == ')' { rest.drop_last() } else { selector }
}

/// An arbitrary value printed in the shape it was written: `(var)` for a variable, `[value]`
/// otherwise.
pub open spec fn print_arbitrary_value(v: Seq<char>) -> Seq<char> {
    match spec_css_variable(v) {
        Some(variable) => seq!['('] + spec_print_arbitrary(variable) + seq![')'],
        None => seq!['['] + spec_print_arbitrary(v) + seq![']'],
    }
}

/// A variant printed back.
pub open spec fn spec_print_variant(v: VariantModel) -> Seq<char>
    decreases v,
{
    match v {
        VariantModel::Static { root } => root,
        VariantModel::Arbitrary { selector, .. } => seq!['['] + spec_print_arbitrary(unwrapped_selector(selector)) + seq![']'],
        VariantModel::Functional { root, value, modifier } => root + match value {
            None => Seq::empty(),
            Some(value) => (if root == seq!['@'] { Seq::empty() } else { seq!['-'] }) + match value {
                VariantValueModel::Named(x) => x,
                VariantValueModel::Arbitrary(x) => print_arbitrary_value(x),
            },
        } + spec_print_modifier(modifier),
        VariantModel::Compound { root, variant, modifier } => root + seq!['-'] + spec_print_variant(*variant) + spec_print_modifier(modifier),
    }
}

fn print_arbitrary_value_exec(v: &str) -> (r: String)
    ensures
        r@ == print_arbitrary_value(v@),
{
    let mut out = String::new();
    match css_variable(v) {
        Some(variable) => {
            push_char(&mut out, '(');
            let printed = print_arbitrary(variable);
            push_str(&mut out, printed.as_str());
            push_char(&mut out, ')');
        },
        None => {
            push_char(&mut out, '[');
            let printed = print_arbitrary(v);
            push_str(&mut out, printed.as_str());
            push_char(&mut out, ']');
        },
    }
    out
}

fn unwrapped_selector_exec(selector: &str) -> (r: &str)
    ensures
        r@ == unwrapped_selector(selector@),
{
    proof {
        reveal_strlit("&:is(");
    }
    let n = selector.unicode_len();
    if n >= 5 && crate::text::starts_with(selector, "&:is(") && n > 5 && selector.get_char(n - 1) == ')' {
        assert(selector@.subrange(5, n as int).drop_last() =~= selector@.subrange(5, n - 1));
        selector.substring_char(5, n - 1)
    } else {
        proof {
            let rest = selector@.subrange(5, selector@.len() as int);
            if selector@.len() >= 5 && is_prefix("&:is("@, selector@) && rest.len() > 0 && rest.last() == ')' {
                assert(rest.last() == selector@[n - 1]);
            }
        }
        selector
    }
}

impl Variant {
    /// The variant printed back.
    pub fn print(&self) -> (r: String)
        ensures
            r@ == spec_print_variant(variant_model(*self)),
        decreases *self,
    {
        match &self.kind {
            VariantKind::Static { root } => root.clone(),
            VariantKind::Arbitrary { selector, .. } => {
                let mut out = String::new();
                push_char(&mut out, '[');
                let printed = print_arbitrary(unwrapped_selector_exec(selector.as_str()));
                push_str(&mut out, printed.as_str());
                push_char(&mut out, ']');
                out
            },
            VariantKind::Functional { root, value, modifier } => {
                let mut out = root.clone();
                match value {
                    None => {},
                    Some(value) => {
                        proof {
                            reveal_strlit("@");
                            assert("@"@ =~= seq!['@']);
                        }
                        if !str_eq(root.as_str(), "@") {
                            push_char(&mut out, '-');
                        }
                        match value {
                            VariantValue::Named(x) => push_str(&mut out, x.as_str()),
                            VariantValue::Arbitrary(x) => {
                                let printed = print_arbitrary_value_exec(x.as_str());
                                push_str(&mut out, printed.as_str());
                            },
                        }
                    },
                }
                let m = print_modifier(match modifier { Some(m) => Some(m), None => None });
                push_str(&mut out, m.as_str());
                out
            },
            VariantKind::Compound { root, variant, modifier } => {
                let mut out = root.clone();
                push_char(&mut out, '-');
                let inner = variant.print();
                push_str(&mut out, inner.as_str());
                let m = print_modifier(match modifier { Some(m) => Some(m), None => None });
                push_str(&mut out, m.as_str());
                out
            },
        }
    }
}

pub(crate) fn copy_modifier(m: &Option<Modifier>) -> (r: Option<Modifier>)
    ensures
        opt_modifier(r) == opt_modifier(*m),
{
    match m {
        Some(Modifier::Arbitrary(v)) => Some(Modifier::Arbitrary(v.clone())),
        Some(Modifier::Named(v)) => Some(Modifier::Named(v.clone())),
        None => None,
    }
}

fn copy_variant_value(v: &Option<VariantValue>) -> (r: Option<VariantValue>)
    ensures
        opt_variant_value(r) == opt_variant_value(*v),
{
    match v {
        Some(VariantValue::Arbitrary(x)) => Some(VariantValue::Arbitrary(x.clone())),
        Some(VariantValue::Named(x)) => Some(VariantValue::Named(x.clone())),
        None => None,
    }
}

pub(crate) fn copy_variant(v: &Variant) -> (r: Variant)
    ensures
        variant_model(r) == variant_model(*v),
    decreases *v,
{
    let kind = match &v.kind {
        VariantKind::Arbitrary { selector, relative } => VariantKind::Arbitrary { selector: selector.clone(), relative: *relative },
        VariantKind::Static { root } => VariantKind::Static { root: root.clone() },
        VariantKind::Functional { root, value, modifier } => VariantKind::Functional { root: root.clone(), value: copy_variant_value(value), modifier: copy_modifier(modifier) },
        VariantKind::Compound { root, variant, modifier } => {
            let inner = copy_variant(variant);
            VariantKind::Compound { root: root.clone(), variant: Box::new(inner), modifier: copy_modifier(modifier) }
        },
    };
    Variant { kind }
}

pub open spec fn variant_models(vs: Seq<Variant>) -> Seq<VariantModel> {
    vs.map_values(|v: Variant| variant_model(v))
}

fn copy_variants(vs: &Vec<Variant>) -> (r: Vec<Variant>)
    ensures
        variant_models(r@) == variant_models(vs@),
{
    let mut out: Vec<Variant> = Vec::new();
    let mut k: usize = 0;
    while k < vs.len()
        invariant
            k <= vs@.len(),
            out@.len() == k,
            forall|j: int| 0 <= j < k ==> variant_model(#[trigger] out@[j]) == variant_model(vs@[j]),
        decreases vs.len() - k,
    {
        out.push(copy_variant(&vs[k]));
        k = k + 1;
    }
    assert(variant_models(out@) =~= variant_models(vs@));
    out
}

/// A candidate's utility, as parsed.
pub enum CandidateKind {
    /// `[property:value]`, with an optional modifier.
    Arbitrary { property: String, value: String, modifier: Option<Modifier> },
    Static { root: String },
    Functional { root: String, value: Option<CandidateValue>, modifier: Option<Modifier> },
}

/// A class name parsed against a design system: its utility, its variants (the one nearest the
/// utility first), whether it is important, and the class name itself.
pub struct Candidate {
    pub kind: CandidateKind,
    pub variants: Vec<Variant>,
    pub important: bool,
    pub raw: String,
}

/// The model of a candidate's utility.
pub enum CandidateKindModel {
    Arbitrary { property: Seq<char>, value: Seq<char>, modifier: Option<ModifierModel> },
    Static { root: Seq<char> },
    Functional { root: Seq<char>, value: Option<CandidateValueModel>, modifier: Option<ModifierModel> },
}

/// The model of a candidate.
pub struct CandidateModel {
    pub kind: CandidateKindModel,
    pub variants: Seq<VariantModel>,
    pub important: bool,
    pub raw: Seq<char>,
}

pub open spec fn kind_model(kind: CandidateKind) -> CandidateKindModel {
    match kind {
        CandidateKind::Arbitrary { property, value, modifier } => CandidateKindModel::Arbitrary { property: property@, value: value@, modifier: opt_modifier(modifier) },
        CandidateKind::Static { root } => CandidateKindModel::Static { root: root@ },
        CandidateKind::Functional { root, value, modifier } => CandidateKindModel::Functional { root: root@, value: opt_candidate_value(value), modifier: opt_modifier(modifier) },
    }
}

pub open spec fn candidate_model(c: Candidate) -> CandidateModel {
    CandidateModel {
        kind: kind_model(c.kind),
        variants: variant_models(c.variants@),
        important: c.important,
        raw: c.raw@,
    }
}

pub open spec fn candidate_models(cs: Seq<Candidate>) -> Seq<CandidateModel> {
    cs.map_values(|c: Candidate| candidate_model(c))
}

/// The raw variants and base of a class name, the design system's prefix removed: `None` when
/// the prefix is missing.
pub open spec fn unprefixed_parts(input: Seq<char>, prefix: Option<Seq<char>>) -> Option<Seq<Seq<char>>> {
    let parts = spec_segment(input, ':');
    match prefix {
        Some(p) => if parts.len() == 1 || parts[0] != p { None } else { Some(parts.drop_first()) },
        None => Some(parts),
    }
}

/// The variants parsed from the raw variants `raws[..n]`, the nearest to the utility first;
/// `None` when one does not parse.
pub open spec fn parse_variants(raws: Seq<Seq<char>>, design: DesignSystem, n: int) -> Option<Seq<VariantModel>>
    decreases n,
{
    if n <= 0 {
        Some(Seq::empty())
    } else {
        match parse_variants(raws, design, n - 1) {
            None => None,
            Some(vs) => match spec_parse_variant(raws[raws.len() - n], design) {
                None => None,
                Some(v) => Some(vs.push(v)),
            },
        }
    }
}

/// The index of the first `c` in `s` from `i` on.
pub open spec fn first_index(s: Seq<char>, c: char, i: int) -> Option<int>
    decreases s.len() - i,
{
    if i < 0 || i >= s.len() {
        None
    } else if s[i] == c {
        Some(i)
    } else {
        first_index(s, c, i + 1)
    }
}

fn first_index_exec(chars: &Vec<char>, c: char) -> (r: Option<usize>)
    ensures
        match r {
            Some(i) => first_index(chars@, c, 0) == Some(i as int) && i < chars@.len(),
            None => first_index(chars@, c, 0) is None,
        },
{
    let mut i: usize = 0;
    while i < chars.len()
        invariant
            i <= chars@.len(),
            first_index(chars@, c, 0) == first_index(chars@, c, i as int),
        decreases chars.len() - i,
    {
        if chars[i] == c {
            return Some(i);
        }
        i = i + 1;
    }
    None
}

/// The property and value of an arbitrary property `[property:value]`: the property starts
/// with a dash or a lowercase letter and is nonempty, so is the value, which must be valid once
/// decoded.
pub open spec fn spec_arbitrary_property(body: Seq<char>) -> Option<(Seq<char>, Seq<char>)> {
    if body.len() == 0 || (body[0] != '-' && !('a' <= body[0] <= 'z')) {
        None
    } else {
        match first_index(body, ':', 0) {
            None => None,
            Some(colon) => if colon == 0 || colon + 1 == body.len() {
                None
            } else {
                let value = spec_decode_arbitrary(body.subrange(colon + 1, body.len() as int));
                if !spec_is_valid_arbitrary(value) { None } else { Some((body.subrange(0, colon), value)) }
            },
        }
    }
}

/// The functional candidates for the roots `roots[..n]`: each root whose value parses.
pub open spec fn functional_candidates(roots: Seq<(Seq<char>, Option<Seq<char>>)>, modifier_segment: Option<Seq<char>>, modifier: Option<ModifierModel>, variants: Seq<VariantModel>, important: bool, raw: Seq<char>, n: int) -> Seq<CandidateModel>
    decreases n,
{
    if n <= 0 {
        Seq::empty()
    } else {
        let rest = functional_candidates(roots, modifier_segment, modifier, variants, important, raw, n - 1);
        let (root, value) = roots[n - 1];
        match value {
            None => rest.push(CandidateModel { kind: CandidateKindModel::Functional { root, value: None, modifier }, variants, important, raw }),
            Some(v) => match spec_parse_candidate_value(v, modifier_segment, modifier) {
                None => rest,
                Some(parsed) => rest.push(CandidateModel { kind: CandidateKindModel::Functional { root, value: Some(parsed), modifier }, variants, important, raw }),
            },
        }
    }
}

/// The base of a class name without its important mark (at its end, else at its start).
pub open spec fn without_important(base: Seq<char>) -> Seq<char> {
    if base.len() > 0 && base.last() == '!' {
        base.drop_last()
    } else if base.len() > 0 && base[0] == '!' {
        base.drop_first()
    } else {
        base
    }
}

/// The candidates for the base of a class name with its parsed variants.
pub open spec fn candidates_for_base(input: Seq<char>, design: DesignSystem, variants: Seq<VariantModel>, marked: Seq<char>) -> Seq<CandidateModel> {
    let important = marked.len() > 0 && (marked.last() == '!' || marked[0] == '!');
    let base = without_important(marked);
    let static_candidate = if design.spec_has_static_utility(base) && !base.contains('[') && !base.contains('/') && !base.contains('(') {
        seq![CandidateModel { kind: CandidateKindModel::Static { root: base }, variants, important, raw: input }]
    } else {
        Seq::empty()
    };
    let parts = spec_segment(base, '/');
    if parts.len() > 2 {
        Seq::empty()
    } else {
        let modifier_segment = if parts.len() == 2 { Some(parts[1]) } else { None };
        let modifier = match modifier_segment {
            Some(m) => spec_parse_modifier(m),
            None => None,
        };
        if modifier_segment is Some && modifier is None {
            Seq::empty()
        } else {
            match enclosed(parts[0], '[', ']') {
                Some(body) => match spec_arbitrary_property(body) {
                    None => Seq::empty(),
                    Some((property, value)) => static_candidate.push(CandidateModel {
                        kind: CandidateKindModel::Arbitrary { property, value, modifier },
                        variants,
                        important,
                        raw: input,
                    }),
                },
                None => {
                    let roots = spec_find_utility_roots(parts[0], design);
                    static_candidate + functional_candidates(roots, modifier_segment, modifier, variants, important, input, roots.len() as int)
                },
            }
        }
    }
}

/// Every reading of a class name as a candidate of the design system: none when the prefix is
/// missing or a variant does not parse.
pub open spec fn spec_parse_candidate(input: Seq<char>, design: DesignSystem) -> Seq<CandidateModel> {
    match unprefixed_parts(input, crate::loader::text_option(design.prefix)) {
        None => Seq::empty(),
        Some(parts) => {
            let raws = parts.drop_last();
            match parse_variants(raws, design, raws.len() as int) {
                None => Seq::empty(),
                Some(variants) => candidates_for_base(input, design, variants, parts.last()),
            }
        },
    }
}

fn parse_variant_list(raws: &Vec<&str>, design: &DesignSystem) -> (r: Option<Vec<Variant>>)
    ensures
        match r {
            Some(vs) => parse_variants(views(raws@), *design, raws@.len() as int) == Some(variant_models(vs@)),
            None => parse_variants(views(raws@), *design, raws@.len() as int) is None,
        },
{
    let ghost all = views(raws@);
    let n = raws.len();
    let mut variants: Vec<Variant> = Vec::new();
    let mut j: usize = 0;
    assert(variant_models(variants@) =~= Seq::<VariantModel>::empty());
    while j < n
        invariant
            all == views(raws@),
            n == raws@.len(),
            j <= n,
            parse_variants(all, *design, j as int) == Some(variant_models(variants@)),
        decreases n - j,
    {
        let raw = raws[n - 1 - j];
        assert(all[all.len() - (j + 1)] == raw@);
        match Variant::parse(raw, design) {
            None => {
                proof {
                    lemma_parse_variants_none(all, *design, j as int + 1, n as int);
                }
                return None;
            },
            Some(v) => {
                let ghost before = variant_models(variants@);
                variants.push(v);
                assert(variant_models(variants@) =~= before.push(variant_model(v)));
            },
        }
        j = j + 1;
    }
    Some(variants)
}

/// Once a variant fails to parse, the whole list fails.
pub proof fn lemma_parse_variants_none(raws: Seq<Seq<char>>, design: DesignSystem, m: int, n: int)
    requires
        0 < m <= n,
        parse_variants(raws, design, m) is None,
    ensures
        parse_variants(raws, design, n) is None,
    decreases n - m,
{
    if m < n {
        lemma_parse_variants_none(raws, design, m + 1, n);
    }
}

fn arbitrary_property(body: &str) -> (r: Option<(String, String)>)
    ensures
        match r {
            Some((p, v)) => spec_arbitrary_property(body@) == Some((p@, v@)),
            None => spec_arbitrary_property(body@) is None,
        },
{
    let chars = chars_of(body);
    let n = chars.len();
    if n == 0 || (chars[0] != '-' && !('a' <= chars[0] && chars[0] <= 'z')) {
        return None;
    }
    let colon = match first_index_exec(&chars, ':') {
        None => {
            return None;
        },
        Some(c) => c,
    };
    if colon == 0 || colon + 1 == n {
        return None;
    }
    let value = decode_arbitrary(body.substring_char(colon + 1, n));
    if !is_valid_arbitrary(value.as_str()) {
        return None;
    }
    Some((body.substring_char(0, colon).to_owned(), value))
}

fn functional_list(roots: &Vec<(&str, Option<&str>)>, modifier_segment: Option<&str>, modifier: &Option<Modifier>, variants: &Vec<Variant>, important: bool, input: &str, out: &mut Vec<Candidate>)
    ensures
        candidate_models(final(out)@) == candidate_models(old(out)@) + functional_candidates(root_views(roots@),
            match modifier_segment { Some(m) => Some(m@), None => None }, opt_modifier(*modifier),
            variant_models(variants@), important, input@, roots@.len() as int),
{
    let ghost rv = root_views(roots@);
    let ghost start = candidate_models(out@);
    let ghost seg = match modifier_segment { Some(m) => Some(m@), None => None };
    let mut k: usize = 0;
    while k < roots.len()
        invariant
            rv == root_views(roots@),
            seg == match modifier_segment { Some(m) => Some(m@), None => None },
            k <= roots@.len(),
            candidate_models(out@) == start + functional_candidates(rv, seg, opt_modifier(*modifier), variant_models(variants@), important, input@, k as int),
        decreases roots.len() - k,
    {
        let (root, value) = roots[k];
        assert(rv[k as int] == (root@, match value { Some(x) => Some(x@), None => None }));
        let ghost before = candidate_models(out@);
        match value {
            None => {
                let c = Candidate {
                    kind: CandidateKind::Functional { root: root.to_owned(), value: None, modifier: copy_modifier(modifier) },
                    variants: copy_variants(variants),
                    important,
                    raw: input.to_owned(),
                };
                out.push(c);
                assert(candidate_models(out@) =~= before.push(candidate_model(c)));
            },
            Some(v) => {
                let modifier_ref: Option<&Modifier> = match modifier { Some(m) => Some(m), None => None };
                match parse_candidate_value(v, modifier_segment, modifier_ref) {
                    None => {},
                    Some(parsed) => {
                        let c = Candidate {
                            kind: CandidateKind::Functional { root: root.to_owned(), value: Some(parsed), modifier: copy_modifier(modifier) },
                            variants: copy_variants(variants),
                            important,
                            raw: input.to_owned(),
                        };
                        out.push(c);
                        assert(candidate_models(out@) =~= before.push(candidate_model(c)));
                    },
                }
            },
        }
        k = k + 1;
    }
}

fn base_candidates(input: &str, design: &DesignSystem, variants: Vec<Variant>, marked: &str) -> (r: Vec<Candidate>)
    ensures
        candidate_models(r@) == candidates_for_base(input@, *design, variant_models(variants@), marked@),
{
    let n = marked.unicode_len();
    let important = n > 0 && (marked.get_char(n - 1) == '!' || marked.get_char(0) == '!');
    let base = if n > 0 && marked.get_char(n - 1) == '!' {
        marked.substring_char(0, n - 1)
    } else if n > 0 && marked.get_char(0) == '!' {
        marked.substring_char(1, n)
    } else {
        marked
    };
    assert(base@ =~= without_important(marked@));
    let ghost vm = variant_models(variants@);
    let mut candidates: Vec<Candidate> = Vec::new();
    if design.has_static_utility(base) && !crate::text::contains_char(base, '[') && !crate::text::contains_char(base, '/') && !crate::text::contains_char(base, '(') {
        let c = Candidate { kind: CandidateKind::Static { root: base.to_owned() }, variants: copy_variants(&variants), important, raw: input.to_owned() };
        candidates.push(c);
        assert(candidate_models(candidates@) =~= seq![candidate_model(c)]);
    } else {
        assert(candidate_models(candidates@) =~= Seq::<CandidateModel>::empty());
    }
    let ghost static_candidate = candidate_models(candidates@);
    let parts = segment(base, 47u8);
    assert(47u8 as char == '/');
    proof {
        crate::segment::segment_rejoins(base@, '/');
    }
    if parts.len() > 2 {
        return Vec::new();
    }
    let without_modifier = parts[0];
    assert(views(parts@)[0] == without_modifier@);
    let modifier_segment: Option<&str> = if parts.len() == 2 { Some(parts[1]) } else { None };
    let modifier = match modifier_segment {
        Some(m) => match parse_modifier(m) {
            Some(parsed) => Some(parsed),
            None => {
                return Vec::new();
            },
        },
        None => None,
    };
    match enclosed_exec(without_modifier, '[', ']') {
        Some(body) => {
            match arbitrary_property(body) {
                None => {
                    return Vec::new();
                },
                Some((property, value)) => {
                    let c = Candidate { kind: CandidateKind::Arbitrary { property, value, modifier }, variants, important, raw: input.to_owned() };
                    candidates.push(c);
                    assert(candidate_models(candidates@) =~= static_candidate.push(candidate_model(c)));
                    return candidates;
                },
            }
        },
        None => {},
    }
    let roots = find_utility_roots(without_modifier, design);
    functional_list(&roots, modifier_segment, &modifier, &variants, important, input, &mut candidates);
    candidates
}

impl Candidate {
    /// Every reading of the class name `input` as a candidate of the design system, in order: a
    /// static utility first, then an arbitrary property or each functional root whose value
    /// parses. None when the design system's prefix is missing, a variant does not parse, or
    /// the utility is malformed.
    pub fn parse(input: &str, design: &DesignSystem) -> (r: Vec<Candidate>)
        ensures
            candidate_models(r@) == spec_parse_candidate(input@, *design),
    {
        let parts = segment(input, 58u8);
        assert(58u8 as char == ':');
        let ghost all = views(parts@);
        proof {
            crate::segment::segment_rejoins(input@, ':');
        }
        let start: usize = match design.prefix() {
            Some(prefix) => {
                if parts.len() == 1 || !str_eq(parts[0], prefix) {
                    return Vec::new();
                }
                1
            },
            None => 0,
        };
        let ghost unprefixed = all.subrange(start as int, all.len() as int);
        assert(unprefixed_parts(input@, crate::loader::text_option(design.prefix)) == Some(unprefixed));
        let n = parts.len();
        let mut raws: Vec<&str> = Vec::new();
        let mut k: usize = start;
        while k + 1 < n
            invariant
                all == views(parts@),
                n == parts@.len(),
                n >= 1,
                start <= n - 1,
                start <= k,
                k <= n - 1,
                views(raws@) == all.subrange(start as int, k as int),
            decreases n - k,
        {
            let ghost before = views(raws@);
            assert(all[k as int] == parts@[k as int]@);
            raws.push(parts[k]);
            assert(views(raws@) =~= before.push(parts@[k as int]@));
            assert(views(raws@) =~= all.subrange(start as int, k + 1));
            k = k + 1;
        }
        assert(views(raws@) =~= unprefixed.drop_last());
        assert(unprefixed.last() == parts@[n - 1]@);
        let variants = match parse_variant_list(&raws, design) {
            None => {
                return Vec::new();
            },
            Some(vs) => vs,
        };
        base_candidates(input, design, variants, parts[n - 1])
    }
}

/// A data type hint printed before a value, with its colon.
pub open spec fn hint_prefix(data_type: Option<Seq<char>>) -> Seq<char> {
    match data_type {
        Some(d) => d + seq![':'],
        None => Seq::empty(),
    }
}

/// A candidate's utility printed back.
pub open spec fn spec_print_base(kind: CandidateKindModel) -> Seq<char> {
    match kind {
        CandidateKindModel::Static { root } => root,
        CandidateKindModel::Functional { root, value, modifier } => root + match value {
            None => Seq::empty(),
            Some(CandidateValueModel::Named { value, .. }) => seq!['-'] + value,
            Some(CandidateValueModel::Arbitrary { data_type, value }) => seq!['-'] + match spec_css_variable(value) {
                Some(variable) => seq!['('] + hint_prefix(data_type) + spec_print_arbitrary(variable) + seq![')'],
                None => seq!['['] + hint_prefix(data_type) + spec_print_arbitrary(value) + seq![']'],
            },
        } + spec_print_modifier(modifier),
        CandidateKindModel::Arbitrary { property, value, modifier } =>
            seq!['['] + property + seq![':'] + spec_print_arbitrary(value) + seq![']'] + spec_print_modifier(modifier),
    }
}

/// A candidate printed back: the prefix, the variants outermost first and the utility, joined
/// with colons, the important mark at the end.
pub open spec fn spec_print_candidate(c: CandidateModel, prefix: Option<Seq<char>>) -> Seq<char> {
    let variants = c.variants.reverse().map_values(|v: VariantModel| spec_print_variant(v));
    let head = match prefix {
        Some(p) => seq![p] + variants,
        None => variants,
    };
    let base = spec_print_base(c.kind) + if c.important { seq!['!'] } else { Seq::empty() };
    crate::enforce_consistent_line_wrapping::join_seq(head.push(base), seq![':'])
}

fn print_base(kind: &CandidateKind) -> (r: String)
    ensures
        r@ == spec_print_base(kind_model(*kind)),
{
    match kind {
        CandidateKind::Static { root } => root.clone(),
        CandidateKind::Functional { root, value, modifier } => {
            let mut base = root.clone();
            match value {
                None => {},
                Some(CandidateValue::Named(named)) => {
                    push_char(&mut base, '-');
                    push_str(&mut base, named.value.as_str());
                },
                Some(CandidateValue::Arbitrary(arbitrary)) => {
                    push_char(&mut base, '-');
                    match css_variable(arbitrary.value.as_str()) {
                        Some(variable) => {
                            push_char(&mut base, '(');
                            match &arbitrary.data_type {
                                Some(d) => {
                                    push_str(&mut base, d.as_str());
                                    push_char(&mut base, ':');
                                },
                                None => {},
                            }
                            let printed = print_arbitrary(variable);
                            push_str(&mut base, printed.as_str());
                            push_char(&mut base, ')');
                        },
                        None => {
                            push_char(&mut base, '[');
                            match &arbitrary.data_type {
                                Some(d) => {
                                    push_str(&mut base, d.as_str());
                                    push_char(&mut base, ':');
                                },
                                None => {},
                            }
                            let printed = print_arbitrary(arbitrary.value.as_str());
                            push_str(&mut base, printed.as_str());
                            push_char(&mut base, ']');
                        },
                    }
                },
            }
            let m = print_modifier(match modifier { Some(m) => Some(m), None => None });
            push_str(&mut base, m.as_str());
            base
        },
        CandidateKind::Arbitrary { property, value, modifier } => {
            let mut base = String::new();
            push_char(&mut base, '[');
            push_str(&mut base, property.as_str());
            push_char(&mut base, ':');
            let printed = print_arbitrary(value.as_str());
            push_str(&mut base, printed.as_str());
            push_char(&mut base, ']');
            let m = print_modifier(match modifier { Some(m) => Some(m), None => None });
            push_str(&mut base, m.as_str());
            base
        },
    }
}

impl Candidate {
    /// The candidate printed back with the design system's prefix.
    pub fn print(&self, design: &DesignSystem) -> (r: String)
        ensures
            r@ == spec_print_candidate(candidate_model(*self), crate::loader::text_option(design.prefix)),
    {
        let ghost model = candidate_model(*self);
        let ghost printed = model.variants.reverse().map_values(|v: VariantModel| spec_print_variant(v));
        let mut parts: Vec<String> = Vec::new();
        let ghost head_start: Seq<Seq<char>> = match crate::loader::text_option(design.prefix) { Some(p) => seq![p], None => Seq::empty() };
        match design.prefix() {
            Some(prefix) => {
                parts.push(prefix.to_owned());
            },
            None => {},
        }
        assert(crate::enforce_consistent_line_wrapping::string_views(parts@) =~= head_start);
        let n = self.variants.len();
        let mut k: usize = 0;
        while k < n
            invariant
                n == self.variants@.len(),
                model == candidate_model(*self),
                printed == model.variants.reverse().map_values(|v: VariantModel| spec_print_variant(v)),
                k <= n,
                crate::enforce_consistent_line_wrapping::string_views(parts@) == head_start + printed.take(k as int),
            decreases n - k,
        {
            let ghost before = crate::enforce_consistent_line_wrapping::string_views(parts@);
            let p = self.variants[n - 1 - k].print();
            assert(model.variants[n - 1 - k] == variant_model(self.variants@[n - 1 - k]));
            assert(printed[k as int] == spec_print_variant(model.variants[n - 1 - k]));
            parts.push(p);
            assert(crate::enforce_consistent_line_wrapping::string_views(parts@) =~= before.push(p@));
            assert(printed.take(k + 1) =~= printed.take(k as int).push(printed[k as int]));
            k = k + 1;
        }
        assert(printed.take(n as int) =~= printed);
        let mut base = print_base(&self.kind);
        if self.important {
            push_char(&mut base, '!');
        }
        let ghost before = crate::enforce_consistent_line_wrapping::string_views(parts@);
        parts.push(base);
        assert(crate::enforce_consistent_line_wrapping::string_views(parts@) =~= before.push(base@));
        proof {
            reveal_strlit(":");
            assert(":"@ =~= seq![':']);
            let head = match crate::loader::text_option(design.prefix) {
                Some(p) => seq![p] + printed,
                None => printed,
            };
            assert(head_start + printed =~= head);
            assert(base@ == spec_print_base(model.kind) + if model.important { seq!['!'] } else { Seq::empty() });
            assert(crate::enforce_consistent_line_wrapping::string_views(parts@) =~= head.push(base@));
        }
        crate::enforce_consistent_line_wrapping::join_strings(&parts, ":")
    }
}

impl DesignSystem {
    /// Every reading of `input` as a candidate of this design system.
    pub fn parse_candidate(&self, input: &str) -> (r: Vec<Candidate>)
        ensures
            candidate_models(r@) == spec_parse_candidate(input@, *self),
    {
        Candidate::parse(input, self)
    }

    /// The variant `input`, if this design system knows it.
    pub fn parse_variant(&self, input: &str) -> (r: Option<Variant>)
        ensures
            opt_variant_model(r) == spec_parse_variant(input@, *self),
    {
        Variant::parse(input, self)
    }
}

} // verus!
