//! Canonical spellings of classes: arbitrary variants that name a built-in variant, arbitrary
//! properties that name a utility, legacy `theme()` paths, and groups of longhands that one
//! shorthand replaces.

use vstd::prelude::*;
use crate::text::{
    chars_of, push_char, push_str, str_eq, strip_prefix, strip_suffix, is_prefix, is_suffix,
    is_ascii_alphanumeric, is_ascii_digit, is_ascii_whitespace, char_is_ascii_alphanumeric,
    char_is_ascii_whitespace,
};

use crate::design_system::DesignSystem;
use crate::collections::text_map_contents;

verus! {

/// A character that an unbracketed variant value may hold.
pub open spec fn is_simple_char(c: char) -> bool {
    is_ascii_alphanumeric(c) || c == '-' || c == '_'
}

/// Whether `value` can follow `data-`, `aria-` or `supports-` without brackets.
pub open spec fn spec_is_simple_variant_value(value: Seq<char>) -> bool {
    value.len() > 0 && forall|i: int| 0 <= i < value.len() ==> is_simple_char(#[trigger] value[i])
}

pub fn is_simple_variant_value(value: &str) -> (r: bool)
    ensures
        r == spec_is_simple_variant_value(value@),
{
    let chars = chars_of(value);
    if chars.len() == 0 {
        return false;
    }
    let mut i: usize = 0;
    while i < chars.len()
        invariant
            chars@ == value@,
            i <= chars@.len(),
            forall|k: int| 0 <= k < i ==> is_simple_char(#[trigger] value@[k]),
        decreases chars.len() - i,
    {
        let c = chars[i];
        if !(char_is_ascii_alphanumeric(c) || c == '-' || c == '_') {
            return false;
        }
        i = i + 1;
    }
    true
}

/// Whether every character of `value` is an ASCII digit (true of the empty string).
pub open spec fn all_digits(value: Seq<char>) -> bool {
    forall|i: int| 0 <= i < value.len() ==> is_ascii_digit(#[trigger] value[i])
}

pub fn is_all_digits(value: &str) -> (r: bool)
    ensures
        r == all_digits(value@),
{
    let chars = chars_of(value);
    let mut i: usize = 0;
    while i < chars.len()
        invariant
            chars@ == value@,
            i <= chars@.len(),
            forall|k: int| 0 <= k < i ==> is_ascii_digit(#[trigger] value@[k]),
        decreases chars.len() - i,
    {
        if !('0' <= chars[i] && chars[i] <= '9') {
            return false;
        }
        i = i + 1;
    }
    true
}

/// `s` without its ASCII whitespace.
pub open spec fn without_ascii_whitespace(s: Seq<char>) -> Seq<char>
    decreases s.len(),
{
    if s.len() == 0 {
        s
    } else if is_ascii_whitespace(s.last()) {
        without_ascii_whitespace(s.drop_last())
    } else {
        without_ascii_whitespace(s.drop_last()).push(s.last())
    }
}

pub fn remove_ascii_whitespace(s: &str) -> (r: String)
    ensures
        r@ == without_ascii_whitespace(s@),
{
    let chars = chars_of(s);
    let mut out = String::new();
    let mut i: usize = 0;
    while i < chars.len()
        invariant
            chars@ == s@,
            i <= chars@.len(),
            out@ == without_ascii_whitespace(s@.take(i as int)),
        decreases chars.len() - i,
    {
        assert(s@.take(i + 1).drop_last() =~= s@.take(i as int));
        if !char_is_ascii_whitespace(chars[i]) {
            push_char(&mut out, chars[i]);
        }
        i = i + 1;
    }
    assert(s@.take(chars@.len() as int) =~= s@);
    out
}

/// The text that `open` and a closing parenthesis enclose in `s`, if `s` has that shape.
pub open spec fn enclosed_by(s: Seq<char>, open: Seq<char>) -> Option<Seq<char>> {
    let rest = s.subrange(open.len() as int, s.len() as int);
    if is_prefix(open, s) && is_suffix(")"@, rest) {
        Some(rest.subrange(0, rest.len() - ")"@.len()))
    } else {
        None
    }
}

fn enclosed<'a>(s: &'a str, open: &str) -> (r: Option<&'a str>)
    ensures
        match r {
            Some(t) => enclosed_by(s@, open@) == Some(t@),
            None => enclosed_by(s@, open@) is None,
        },
{
    match strip_prefix(s, open) {
        Some(rest) => {
            assert(s@.subrange(open@.len() as int, s@.len() as int) =~= rest@);
            match strip_suffix(rest, ")") {
                Some(inner) => {
                    assert(rest@.subrange(0, rest@.len() - ")"@.len()) =~= inner@);
                    Some(inner)
                },
                None => None,
            }
        },
        None => None,
    }
}

pub(crate) fn concat2(a: &str, b: &str) -> (r: String)
    ensures
        r@ == a@ + b@,
{
    let mut out = String::new();
    push_str(&mut out, a);
    push_str(&mut out, b);
    assert(out@ =~= a@ + b@);
    out
}

pub(crate) fn concat3(a: &str, b: &str, c: &str) -> (r: String)
    ensures
        r@ == a@ + b@ + c@,
{
    let mut out = String::new();
    push_str(&mut out, a);
    push_str(&mut out, b);
    push_str(&mut out, c);
    assert(out@ =~= a@ + b@ + c@);
    out
}

fn concat4(a: &str, b: &str, c: &str, d: &str) -> (r: String)
    ensures
        r@ == a@ + b@ + c@ + d@,
{
    let mut out = String::new();
    push_str(&mut out, a);
    push_str(&mut out, b);
    push_str(&mut out, c);
    push_str(&mut out, d);
    assert(out@ =~= a@ + b@ + c@ + d@);
    out
}

/// `root-value` when `value` is all digits, else `root-[value]`.
pub open spec fn nth_name(root: Seq<char>, value: Seq<char>) -> Seq<char> {
    if all_digits(value) {
        root + "-"@ + value
    } else {
        root + "-["@ + value + "]"@
    }
}

/// The `nth-*` variant for an `nth-child(..)` or `nth-last-child(..)` selector.
pub open spec fn spec_canonical_nth_variant(selector: Seq<char>) -> Option<Seq<char>> {
    match enclosed_by(selector, "nth-child("@) {
        Some(value) => Some(nth_name("nth"@, value)),
        None => match enclosed_by(selector, "nth-last-child("@) {
            Some(value) => Some(nth_name("nth-last"@, value)),
            None => None,
        },
    }
}

fn nth_name_exec(root: &str, value: &str) -> (r: String)
    ensures
        r@ == nth_name(root@, value@),
{
    if is_all_digits(value) {
        concat3(root, "-", value)
    } else {
        concat4(root, "-[", value, "]")
    }
}

pub fn canonical_nth_variant(selector: &str) -> (r: Option<String>)
    ensures
        match r {
            Some(t) => spec_canonical_nth_variant(selector@) == Some(t@),
            None => spec_canonical_nth_variant(selector@) is None,
        },
{
    if let Some(value) = enclosed(selector, "nth-child(") {
        Some(nth_name_exec("nth", value))
    } else if let Some(value) = enclosed(selector, "nth-last-child(") {
        Some(nth_name_exec("nth-last", value))
    } else {
        None
    }
}

/// The built-in variant that a pseudo-class selector names, without the `nth` forms.
pub open spec fn pseudo_root(s: Seq<char>) -> Option<Seq<char>> {
    if s == "focus"@ { Some("focus"@) }
    else if s == "focus-visible"@ { Some("focus-visible"@) }
    else if s == "focus-within"@ { Some("focus-within"@) }
    else if s == "active"@ { Some("active"@) }
    else if s == "visited"@ { Some("visited"@) }
    else if s == "target"@ { Some("target"@) }
    else if s == "first-child"@ { Some("first"@) }
    else if s == "last-child"@ { Some("last"@) }
    else if s == "only-child"@ { Some("only"@) }
    else if s == "first-of-type"@ { Some("first-of-type"@) }
    else if s == "last-of-type"@ { Some("last-of-type"@) }
    else if s == "only-of-type"@ { Some("only-of-type"@) }
    else if s == "empty"@ { Some("empty"@) }
    else if s == "checked"@ { Some("checked"@) }
    else if s == "disabled"@ { Some("disabled"@) }
    else if s == "enabled"@ { Some("enabled"@) }
    else if s == "required"@ { Some("required"@) }
    else if s == "optional"@ { Some("optional"@) }
    else if s == "valid"@ { Some("valid"@) }
    else if s == "invalid"@ { Some("invalid"@) }
    else if s == "nth-child(odd)"@ { Some("odd"@) }
    else if s == "nth-child(even)"@ { Some("even"@) }
    else { None }
}

fn pseudo_root_exec(s: &str) -> (r: Option<&'static str>)
    ensures
        match r {
            Some(t) => pseudo_root(s@) == Some(t@),
            None => pseudo_root(s@) is None,
        },
{
    if str_eq(s, "focus") { Some("focus") }
    else if str_eq(s, "focus-visible") { Some("focus-visible") }
    else if str_eq(s, "focus-within") { Some("focus-within") }
    else if str_eq(s, "active") { Some("active") }
    else if str_eq(s, "visited") { Some("visited") }
    else if str_eq(s, "target") { Some("target") }
    else if str_eq(s, "first-child") { Some("first") }
    else if str_eq(s, "last-child") { Some("last") }
    else if str_eq(s, "only-child") { Some("only") }
    else if str_eq(s, "first-of-type") { Some("first-of-type") }
    else if str_eq(s, "last-of-type") { Some("last-of-type") }
    else if str_eq(s, "only-of-type") { Some("only-of-type") }
    else if str_eq(s, "empty") { Some("empty") }
    else if str_eq(s, "checked") { Some("checked") }
    else if str_eq(s, "disabled") { Some("disabled") }
    else if str_eq(s, "enabled") { Some("enabled") }
    else if str_eq(s, "required") { Some("required") }
    else if str_eq(s, "optional") { Some("optional") }
    else if str_eq(s, "valid") { Some("valid") }
    else if str_eq(s, "invalid") { Some("invalid") }
    else if str_eq(s, "nth-child(odd)") { Some("odd") }
    else if str_eq(s, "nth-child(even)") { Some("even") }
    else { None }
}

/// `s` without `prefix`, or `s` itself when it does not start with it.
pub open spec fn without_prefix(s: Seq<char>, prefix: Seq<char>) -> Seq<char> {
    if is_prefix(prefix, s) {
        s.subrange(prefix.len() as int, s.len() as int)
    } else {
        s
    }
}

pub(crate) fn strip_prefix_or_self<'a>(s: &'a str, prefix: &str) -> (r: &'a str)
    ensures
        r@ == without_prefix(s@, prefix@),
{
    match strip_prefix(s, prefix) {
        Some(rest) => {
            assert(s@.subrange(prefix@.len() as int, s@.len() as int) =~= rest@);
            rest
        },
        None => s,
    }
}

/// The built-in variant that an arbitrary pseudo-class variant selector names: `&:focus`,
/// `:first-child`, `&:nth-child(3)`, or one of them inside `&:not(..)`.
pub open spec fn spec_canonical_pseudo_variant(selector: Seq<char>) -> Option<Seq<char>> {
    let negated = enclosed_by(selector, "&:not("@) is Some;
    let inner = match enclosed_by(selector, "&:not("@) {
        Some(inner) => inner,
        None => selector,
    };
    let bare = if is_prefix("&:"@, inner) {
        inner.subrange("&:"@.len() as int, inner.len() as int)
    } else {
        without_prefix(inner, ":"@)
    };
    let root = match pseudo_root(bare) {
        Some(root) => Some(root),
        None => spec_canonical_nth_variant(bare),
    };
    match root {
        None => None,
        Some(root) => Some(
            if !negated {
                root
            } else if root == "odd"@ {
                "even"@
            } else if root == "even"@ {
                "odd"@
            } else {
                "not-"@ + root
            },
        ),
    }
}

pub fn canonical_pseudo_variant(selector: &str) -> (r: Option<String>)
    ensures
        match r {
            Some(t) => spec_canonical_pseudo_variant(selector@) == Some(t@),
            None => spec_canonical_pseudo_variant(selector@) is None,
        },
{
    let (negated, inner) = match enclosed(selector, "&:not(") {
        Some(inner) => (true, inner),
        None => (false, selector),
    };
    let bare = match strip_prefix(inner, "&:") {
        Some(rest) => {
            assert(inner@.subrange("&:"@.len() as int, inner@.len() as int) =~= rest@);
            rest
        },
        None => strip_prefix_or_self(inner, ":"),
    };
    let root = match pseudo_root_exec(bare) {
        Some(root) => root.to_owned(),
        None => match canonical_nth_variant(bare) {
            Some(root) => root,
            None => return None,
        },
    };
    if !negated {
        Some(root)
    } else if str_eq(root.as_str(), "odd") {
        Some("even".to_owned())
    } else if str_eq(root.as_str(), "even") {
        Some("odd".to_owned())
    } else {
        Some(concat2("not-", root.as_str()))
    }
}

/// The `data-*` or `aria-*` variant that an arbitrary attribute selector names.
pub open spec fn spec_canonical_attribute_variant(selector: Seq<char>) -> Option<Seq<char>> {
    let inner = match enclosed_by(selector, "&:is("@) {
        Some(inner) => inner,
        None => selector,
    };
    let bare = without_prefix(inner, "&"@);
    let opened = bare.subrange("["@.len() as int, bare.len() as int);
    if !is_prefix("["@, bare) || !is_suffix("]"@, opened) {
        None
    } else {
        let attribute = opened.subrange(0, opened.len() - "]"@.len());
        if is_prefix("data-"@, attribute) {
            let data = attribute.subrange("data-"@.len() as int, attribute.len() as int);
            Some(
                if spec_is_simple_variant_value(data) {
                    "data-"@ + data
                } else {
                    "data-["@ + data + "]"@
                },
            )
        } else if is_prefix("aria-"@, attribute) {
            let aria = attribute.subrange("aria-"@.len() as int, attribute.len() as int);
            let name = aria.subrange(0, aria.len() - "=\"true\""@.len());
            Some(
                if is_suffix("=\"true\""@, aria) && spec_is_simple_variant_value(name) {
                    "aria-"@ + name
                } else {
                    "aria-["@ + aria + "]"@
                },
            )
        } else {
            None
        }
    }
}

pub fn canonical_attribute_variant(selector: &str) -> (r: Option<String>)
    ensures
        match r {
            Some(t) => spec_canonical_attribute_variant(selector@) == Some(t@),
            None => spec_canonical_attribute_variant(selector@) is None,
        },
{
    let inner = match enclosed(selector, "&:is(") {
        Some(inner) => inner,
        None => selector,
    };
    let bare = strip_prefix_or_self(inner, "&");
    let opened = match strip_prefix(bare, "[") {
        Some(rest) => {
            assert(bare@.subrange("["@.len() as int, bare@.len() as int) =~= rest@);
            rest
        },
        None => return None,
    };
    let attribute = match strip_suffix(opened, "]") {
        Some(rest) => {
            assert(opened@.subrange(0, opened@.len() - "]"@.len()) =~= rest@);
            rest
        },
        None => return None,
    };
    if let Some(data) = strip_prefix(attribute, "data-") {
        assert(attribute@.subrange("data-"@.len() as int, attribute@.len() as int) =~= data@);
        return Some(
            if is_simple_variant_value(data) {
                concat2("data-", data)
            } else {
                concat3("data-[", data, "]")
            },
        );
    }
    if let Some(aria) = strip_prefix(attribute, "aria-") {
        assert(attribute@.subrange("aria-"@.len() as int, attribute@.len() as int) =~= aria@);
        if let Some(name) = strip_suffix(aria, "=\"true\"") {
            assert(aria@.subrange(0, aria@.len() - "=\"true\""@.len()) =~= name@);
            if is_simple_variant_value(name) {
                return Some(concat2("aria-", name));
            }
        }
        return Some(concat3("aria-[", aria, "]"));
    }
    None
}

/// The built-in variant that a media query names, after `@media` with the spaces removed.
pub open spec fn media_root(query: Seq<char>) -> Option<Seq<char>> {
    if query == "print"@ { Some("print"@) }
    else if query == "(scripting:none)"@ { Some("noscript"@) }
    else if query == "(prefers-color-scheme:dark)"@ { Some("dark"@) }
    else if query == "(orientation:portrait)"@ { Some("portrait"@) }
    else if query == "(orientation:landscape)"@ { Some("landscape"@) }
    else if query == "(pointer:none)"@ { Some("pointer-none"@) }
    else if query == "(pointer:coarse)"@ { Some("pointer-coarse"@) }
    else if query == "(pointer:fine)"@ { Some("pointer-fine"@) }
    else if query == "(any-pointer:none)"@ { Some("any-pointer-none"@) }
    else if query == "(any-pointer:coarse)"@ { Some("any-pointer-coarse"@) }
    else if query == "(any-pointer:fine)"@ { Some("any-pointer-fine"@) }
    else { None }
}

fn media_root_exec(query: &str) -> (r: Option<&'static str>)
    ensures
        match r {
            Some(t) => media_root(query@) == Some(t@),
            None => media_root(query@) is None,
        },
{
    if str_eq(query, "print") { Some("print") }
    else if str_eq(query, "(scripting:none)") { Some("noscript") }
    else if str_eq(query, "(prefers-color-scheme:dark)") { Some("dark") }
    else if str_eq(query, "(orientation:portrait)") { Some("portrait") }
    else if str_eq(query, "(orientation:landscape)") { Some("landscape") }
    else if str_eq(query, "(pointer:none)") { Some("pointer-none") }
    else if str_eq(query, "(pointer:coarse)") { Some("pointer-coarse") }
    else if str_eq(query, "(pointer:fine)") { Some("pointer-fine") }
    else if str_eq(query, "(any-pointer:none)") { Some("any-pointer-none") }
    else if str_eq(query, "(any-pointer:coarse)") { Some("any-pointer-coarse") }
    else if str_eq(query, "(any-pointer:fine)") { Some("any-pointer-fine") }
    else { None }
}

/// The variant that an arbitrary variant selector is spelled as when a built-in one says the
/// same: a pseudo-class, a `data-`/`aria-` attribute, or a media query, possibly negated. A
/// negated media query that names no built-in variant becomes `not-[@media ..]`.
pub open spec fn spec_canonical_arbitrary_variant(selector: Seq<char>) -> Option<Seq<char>> {
    let compact = without_ascii_whitespace(selector);
    if spec_canonical_pseudo_variant(compact) is Some {
        spec_canonical_pseudo_variant(compact)
    } else if spec_canonical_attribute_variant(compact) is Some {
        spec_canonical_attribute_variant(compact)
    } else if !is_prefix("@media"@, compact) {
        None
    } else {
        let media = compact.subrange("@media"@.len() as int, compact.len() as int);
        let negated = is_prefix("not"@, media);
        let query = without_prefix(media, "not"@);
        match media_root(query) {
            Some(root) => Some(if negated { "not-"@ + root } else { root }),
            None => if negated && is_prefix("@media not"@, selector) {
                Some("not-["@ + "@media"@ + selector.subrange("@media not"@.len() as int, selector.len() as int) + "]"@)
            } else {
                None
            },
        }
    }
}

pub fn canonical_arbitrary_variant(selector: &str) -> (r: Option<String>)
    ensures
        match r {
            Some(t) => spec_canonical_arbitrary_variant(selector@) == Some(t@),
            None => spec_canonical_arbitrary_variant(selector@) is None,
        },
{
    let compact = remove_ascii_whitespace(selector);
    if let Some(root) = canonical_pseudo_variant(compact.as_str()) {
        return Some(root);
    }
    if let Some(attribute) = canonical_attribute_variant(compact.as_str()) {
        return Some(attribute);
    }
    let media = match strip_prefix(compact.as_str(), "@media") {
        Some(media) => {
            assert(compact@.subrange("@media"@.len() as int, compact@.len() as int) =~= media@);
            media
        },
        None => return None,
    };
    let negated = crate::text::starts_with(media, "not");
    let query = strip_prefix_or_self(media, "not");
    if let Some(root) = media_root_exec(query) {
        return Some(if negated { concat2("not-", root) } else { root.to_owned() });
    }
    if negated {
        if let Some(rest) = strip_prefix(selector, "@media not") {
            assert(selector@.subrange("@media not"@.len() as int, selector@.len() as int) =~= rest@);
            let positive = concat2("@media", rest);
            let r = concat3("not-[", positive.as_str(), "]");
            return Some(r);
        }
    }
    None
}

/// The static utility that an arbitrary property and value spell out, if Tailwind has one.
pub open spec fn spec_static_equivalent(property: Seq<char>, value: Seq<char>) -> Option<Seq<char>> {
    if property == "display"@ && value == "block"@ { Some("block"@) }
    else if property == "display"@ && value == "inline"@ { Some("inline"@) }
    else if property == "display"@ && value == "inline-block"@ { Some("inline-block"@) }
    else if property == "display"@ && value == "flex"@ { Some("flex"@) }
    else if property == "display"@ && value == "inline-flex"@ { Some("inline-flex"@) }
    else if property == "display"@ && value == "grid"@ { Some("grid"@) }
    else if property == "display"@ && value == "inline-grid"@ { Some("inline-grid"@) }
    else if property == "display"@ && value == "none"@ { Some("hidden"@) }
    else if property == "position"@ && value == "static"@ { Some("static"@) }
    else if property == "position"@ && value == "fixed"@ { Some("fixed"@) }
    else if property == "position"@ && value == "absolute"@ { Some("absolute"@) }
    else if property == "position"@ && value == "relative"@ { Some("relative"@) }
    else if property == "position"@ && value == "sticky"@ { Some("sticky"@) }
    else if property == "text-decoration-line"@ && value == "underline"@ { Some("underline"@) }
    else if property == "text-decoration-line"@ && value == "line-through"@ { Some("line-through"@) }
    else if property == "text-wrap"@ && value == "balance"@ { Some("text-balance"@) }
    else if property == "border-style"@ && value == "solid"@ { Some("border-solid"@) }
    else if property == "border-style"@ && value == "dashed"@ { Some("border-dashed"@) }
    else if property == "border-style"@ && value == "dotted"@ { Some("border-dotted"@) }
    else if property == "border-style"@ && value == "double"@ { Some("border-double"@) }
    else if property == "border-style"@ && value == "none"@ { Some("border-none"@) }
    else { None }
}

pub fn static_equivalent(property: &str, value: &str) -> (r: Option<&'static str>)
    ensures
        match r {
            Some(t) => spec_static_equivalent(property@, value@) == Some(t@),
            None => spec_static_equivalent(property@, value@) is None,
        },
{
    if str_eq(property, "display") && str_eq(value, "block") { Some("block") }
    else if str_eq(property, "display") && str_eq(value, "inline") { Some("inline") }
    else if str_eq(property, "display") && str_eq(value, "inline-block") { Some("inline-block") }
    else if str_eq(property, "display") && str_eq(value, "flex") { Some("flex") }
    else if str_eq(property, "display") && str_eq(value, "inline-flex") { Some("inline-flex") }
    else if str_eq(property, "display") && str_eq(value, "grid") { Some("grid") }
    else if str_eq(property, "display") && str_eq(value, "inline-grid") { Some("inline-grid") }
    else if str_eq(property, "display") && str_eq(value, "none") { Some("hidden") }
    else if str_eq(property, "position") && str_eq(value, "static") { Some("static") }
    else if str_eq(property, "position") && str_eq(value, "fixed") { Some("fixed") }
    else if str_eq(property, "position") && str_eq(value, "absolute") { Some("absolute") }
    else if str_eq(property, "position") && str_eq(value, "relative") { Some("relative") }
    else if str_eq(property, "position") && str_eq(value, "sticky") { Some("sticky") }
    else if str_eq(property, "text-decoration-line") && str_eq(value, "underline") { Some("underline") }
    else if str_eq(property, "text-decoration-line") && str_eq(value, "line-through") { Some("line-through") }
    else if str_eq(property, "text-wrap") && str_eq(value, "balance") { Some("text-balance") }
    else if str_eq(property, "border-style") && str_eq(value, "solid") { Some("border-solid") }
    else if str_eq(property, "border-style") && str_eq(value, "dashed") { Some("border-dashed") }
    else if str_eq(property, "border-style") && str_eq(value, "dotted") { Some("border-dotted") }
    else if str_eq(property, "border-style") && str_eq(value, "double") { Some("border-double") }
    else if str_eq(property, "border-style") && str_eq(value, "none") { Some("border-none") }
    else { None }
}

/// The functional utility that sets an arbitrary property, if Tailwind has one.
pub open spec fn spec_property_utility(property: Seq<char>) -> Option<Seq<char>> {
    if property == "color"@ { Some("text"@) }
    else if property == "font-size"@ { Some("text"@) }
    else if property == "line-height"@ { Some("leading"@) }
    else if property == "font-weight"@ { Some("font"@) }
    else if property == "background-color"@ { Some("bg"@) }
    else if property == "width"@ { Some("w"@) }
    else if property == "height"@ { Some("h"@) }
    else if property == "min-width"@ { Some("min-w"@) }
    else if property == "max-width"@ { Some("max-w"@) }
    else if property == "min-height"@ { Some("min-h"@) }
    else if property == "max-height"@ { Some("max-h"@) }
    else if property == "margin"@ { Some("m"@) }
    else if property == "margin-inline"@ { Some("mx"@) }
    else if property == "margin-block"@ { Some("my"@) }
    else if property == "margin-top"@ { Some("mt"@) }
    else if property == "margin-right"@ { Some("mr"@) }
    else if property == "margin-bottom"@ { Some("mb"@) }
    else if property == "margin-left"@ { Some("ml"@) }
    else if property == "padding"@ { Some("p"@) }
    else if property == "padding-inline"@ { Some("px"@) }
    else if property == "padding-block"@ { Some("py"@) }
    else if property == "padding-top"@ { Some("pt"@) }
    else if property == "padding-right"@ { Some("pr"@) }
    else if property == "padding-bottom"@ { Some("pb"@) }
    else if property == "padding-left"@ { Some("pl"@) }
    else if property == "border-radius"@ { Some("rounded"@) }
    else if property == "opacity"@ { Some("opacity"@) }
    else if property == "z-index"@ { Some("z"@) }
    else if property == "grid-column"@ { Some("col"@) }
    else if property == "grid-template-columns"@ { Some("grid-cols"@) }
    else if property == "grid-template-rows"@ { Some("grid-rows"@) }
    else { None }
}

pub fn property_utility(property: &str) -> (r: Option<&'static str>)
    ensures
        match r {
            Some(t) => spec_property_utility(property@) == Some(t@),
            None => spec_property_utility(property@) is None,
        },
{
    if str_eq(property, "color") { Some("text") }
    else if str_eq(property, "font-size") { Some("text") }
    else if str_eq(property, "line-height") { Some("leading") }
    else if str_eq(property, "font-weight") { Some("font") }
    else if str_eq(property, "background-color") { Some("bg") }
    else if str_eq(property, "width") { Some("w") }
    else if str_eq(property, "height") { Some("h") }
    else if str_eq(property, "min-width") { Some("min-w") }
    else if str_eq(property, "max-width") { Some("max-w") }
    else if str_eq(property, "min-height") { Some("min-h") }
    else if str_eq(property, "max-height") { Some("max-h") }
    else if str_eq(property, "margin") { Some("m") }
    else if str_eq(property, "margin-inline") { Some("mx") }
    else if str_eq(property, "margin-block") { Some("my") }
    else if str_eq(property, "margin-top") { Some("mt") }
    else if str_eq(property, "margin-right") { Some("mr") }
    else if str_eq(property, "margin-bottom") { Some("mb") }
    else if str_eq(property, "margin-left") { Some("ml") }
    else if str_eq(property, "padding") { Some("p") }
    else if str_eq(property, "padding-inline") { Some("px") }
    else if str_eq(property, "padding-block") { Some("py") }
    else if str_eq(property, "padding-top") { Some("pt") }
    else if str_eq(property, "padding-right") { Some("pr") }
    else if str_eq(property, "padding-bottom") { Some("pb") }
    else if str_eq(property, "padding-left") { Some("pl") }
    else if str_eq(property, "border-radius") { Some("rounded") }
    else if str_eq(property, "opacity") { Some("opacity") }
    else if str_eq(property, "z-index") { Some("z") }
    else if str_eq(property, "grid-column") { Some("col") }
    else if str_eq(property, "grid-template-columns") { Some("grid-cols") }
    else if str_eq(property, "grid-template-rows") { Some("grid-rows") }
    else { None }
}

/// Whether a utility root takes values of the spacing scale.
pub open spec fn spec_is_spacing_utility(root: Seq<char>) -> bool {
    root == "m"@
        || root == "mx"@
        || root == "my"@
        || root == "mt"@
        || root == "mr"@
        || root == "mb"@
        || root == "ml"@
        || root == "p"@
        || root == "px"@
        || root == "py"@
        || root == "pt"@
        || root == "pr"@
        || root == "pb"@
        || root == "pl"@
        || root == "w"@
        || root == "h"@
        || root == "min-w"@
        || root == "max-w"@
        || root == "min-h"@
        || root == "max-h"@
        || root == "size"@
        || root == "gap"@
        || root == "gap-x"@
        || root == "gap-y"@
        || root == "leading"@
        || root == "top"@
        || root == "right"@
        || root == "bottom"@
        || root == "left"@
        || root == "inset"@
        || root == "inset-x"@
        || root == "inset-y"@
}

pub fn is_spacing_utility(root: &str) -> (r: bool)
    ensures
        r == spec_is_spacing_utility(root@),
{
    str_eq(root, "m")
        || str_eq(root, "mx")
        || str_eq(root, "my")
        || str_eq(root, "mt")
        || str_eq(root, "mr")
        || str_eq(root, "mb")
        || str_eq(root, "ml")
        || str_eq(root, "p")
        || str_eq(root, "px")
        || str_eq(root, "py")
        || str_eq(root, "pt")
        || str_eq(root, "pr")
        || str_eq(root, "pb")
        || str_eq(root, "pl")
        || str_eq(root, "w")
        || str_eq(root, "h")
        || str_eq(root, "min-w")
        || str_eq(root, "max-w")
        || str_eq(root, "min-h")
        || str_eq(root, "max-h")
        || str_eq(root, "size")
        || str_eq(root, "gap")
        || str_eq(root, "gap-x")
        || str_eq(root, "gap-y")
        || str_eq(root, "leading")
        || str_eq(root, "top")
        || str_eq(root, "right")
        || str_eq(root, "bottom")
        || str_eq(root, "left")
        || str_eq(root, "inset")
        || str_eq(root, "inset-x")
        || str_eq(root, "inset-y")
}

/// `value` with a leading `-` removed, or with one added when it has none.
pub open spec fn spec_negate_value(value: Seq<char>) -> Seq<char> {
    if is_prefix("-"@, value) {
        value.subrange("-"@.len() as int, value.len() as int)
    } else {
        "-"@ + value
    }
}

pub fn negate_value(value: &str) -> (r: String)
    ensures
        r@ == spec_negate_value(value@),
{
    match strip_prefix(value, "-") {
        Some(rest) => {
            assert(value@.subrange("-"@.len() as int, value@.len() as int) =~= rest@);
            rest.to_owned()
        },
        None => concat2("-", value),
    }
}

/// `s` without `suffix`, if it ends with it.
pub open spec fn before_suffix(s: Seq<char>, suffix: Seq<char>) -> Option<Seq<char>> {
    if is_suffix(suffix, s) {
        Some(s.subrange(0, s.len() - suffix.len()))
    } else {
        None
    }
}

/// The custom property that `calc(var(--x)*-1)` or `calc(-1*var(--x))` negates.
pub open spec fn spec_negated_variable(value: Seq<char>) -> Option<Seq<char>> {
    match enclosed_by(value, "calc("@) {
        None => None,
        Some(expression) => {
            let first = match before_suffix(expression, "*-1"@) {
                Some(head) => enclosed_by(head, "var("@),
                None => None,
            };
            let found = if first is Some { first } else { enclosed_by(expression, "-1*var("@) };
            match found {
                Some(variable) => if is_prefix("--"@, variable) { Some(variable) } else { None },
                None => None,
            }
        },
    }
}

pub fn negated_variable(value: &str) -> (r: Option<&str>)
    ensures
        match r {
            Some(t) => spec_negated_variable(value@) == Some(t@),
            None => spec_negated_variable(value@) is None,
        },
{
    let expression = match enclosed(value, "calc(") {
        Some(expression) => expression,
        None => return None,
    };
    let first = match strip_suffix(expression, "*-1") {
        Some(head) => {
            assert(expression@.subrange(0, expression@.len() - "*-1"@.len()) =~= head@);
            enclosed(head, "var(")
        },
        None => None,
    };
    let found = match first {
        Some(variable) => Some(variable),
        None => enclosed(expression, "-1*var("),
    };
    match found {
        Some(variable) => if crate::text::starts_with(variable, "--") { Some(variable) } else { None },
        None => None,
    }
}

/// A legacy `theme()` path with `[key]` written as `.key`.
pub open spec fn spec_normalize_legacy_theme_path(path: Seq<char>) -> Seq<char>
    decreases path.len(),
{
    if path.len() == 0 {
        path
    } else {
        let rest = spec_normalize_legacy_theme_path(path.drop_last());
        let c = path.last();
        if c == '[' {
            rest.push('.')
        } else if c == ']' {
            rest
        } else {
            rest.push(c)
        }
    }
}

pub fn normalize_legacy_theme_path(path: &str) -> (r: String)
    ensures
        r@ == spec_normalize_legacy_theme_path(path@),
{
    let chars = chars_of(path);
    let mut out = String::new();
    let mut i: usize = 0;
    while i < chars.len()
        invariant
            chars@ == path@,
            i <= chars@.len(),
            out@ == spec_normalize_legacy_theme_path(path@.take(i as int)),
        decreases chars.len() - i,
    {
        assert(path@.take(i + 1).drop_last() =~= path@.take(i as int));
        let c = chars[i];
        if c == '[' {
            push_char(&mut out, '.');
        } else if c != ']' {
            push_char(&mut out, c);
        }
        i = i + 1;
    }
    assert(path@.take(chars@.len() as int) =~= path@);
    out
}

/// A dotted theme path with each `.` written as `-`.
pub open spec fn spec_hyphenate_theme_path(path: Seq<char>) -> Seq<char> {
    path.map_values(|c: char| if c == '.' { '-' } else { c })
}

pub fn hyphenate_theme_path(path: &str) -> (r: String)
    ensures
        r@ == spec_hyphenate_theme_path(path@),
{
    let chars = chars_of(path);
    let mut out = String::new();
    let mut i: usize = 0;
    while i < chars.len()
        invariant
            chars@ == path@,
            i <= chars@.len(),
            out@ == spec_hyphenate_theme_path(path@.take(i as int)),
        decreases chars.len() - i,
    {
        let c = chars[i];
        push_char(&mut out, if c == '.' { '-' } else { c });
        assert(spec_hyphenate_theme_path(path@.take(i + 1)) =~= spec_hyphenate_theme_path(path@.take(i as int)).push(if c == '.' { '-' } else { c }));
        i = i + 1;
    }
    assert(path@.take(chars@.len() as int) =~= path@);
    out
}

/// The position of the parenthesis that closes the one counted from `i` at nesting `depth`;
/// `None` when a `)` closes nothing or the text ends first.
pub open spec fn closing_paren_from(s: Seq<char>, i: int, depth: nat) -> Option<int>
    decreases s.len() - i,
{
    if i < 0 || i >= s.len() {
        None
    } else if s[i] == '(' {
        closing_paren_from(s, i + 1, depth + 1)
    } else if s[i] == ')' {
        if depth == 0 {
            None
        } else if depth == 1 {
            Some(i)
        } else {
            closing_paren_from(s, i + 1, (depth - 1) as nat)
        }
    } else {
        closing_paren_from(s, i + 1, depth)
    }
}

pub proof fn lemma_closing_paren_bounds(s: Seq<char>, i: int, depth: nat)
    requires
        0 <= i,
    ensures
        closing_paren_from(s, i, depth) matches Some(k) ==> i <= k < s.len() && s[k] == ')',
    decreases s.len() - i,
{
    if i < s.len() {
        if s[i] == '(' {
            lemma_closing_paren_bounds(s, i + 1, depth + 1);
        } else if s[i] == ')' {
            if depth > 1 {
                lemma_closing_paren_bounds(s, i + 1, (depth - 1) as nat);
            }
        } else {
            lemma_closing_paren_bounds(s, i + 1, depth);
        }
    }
}

/// The parenthesis that closes the one at character `open` of `chars`.
pub fn matching_parenthesis(chars: &Vec<char>, open: usize) -> (r: Option<usize>)
    ensures
        match r {
            Some(k) => closing_paren_from(chars@, open as int, 0) == Some(k as int) && open <= k < chars@.len(),
            None => closing_paren_from(chars@, open as int, 0) is None,
        },
{
    proof {
        lemma_closing_paren_bounds(chars@, open as int, 0);
    }
    let n = chars.len();
    let mut depth: usize = 0;
    let mut index = open;
    while index < n
        invariant
            n == chars@.len(),
            open <= index,
            depth <= index,
            closing_paren_from(chars@, open as int, 0) == closing_paren_from(chars@, index as int, depth as nat),
            closing_paren_from(chars@, open as int, 0) matches Some(k) ==> open <= k < chars@.len(),
        decreases n - index,
    {
        let c = chars[index];
        if c == '(' {
            depth = depth + 1;
        } else if c == ')' {
            if depth == 0 {
                return None;
            }
            if depth == 1 {
                return Some(index);
            }
            depth = depth - 1;
        }
        index = index + 1;
    }
    None
}

/// The first position at or after `i` where `needle` occurs in `s`.
pub open spec fn find_from(s: Seq<char>, needle: Seq<char>, i: int) -> Option<int>
    decreases s.len() + 1 - i,
{
    if i < 0 || i + needle.len() > s.len() {
        None
    } else if crate::css::occurs_at(s, needle, i) {
        Some(i)
    } else {
        find_from(s, needle, i + 1)
    }
}

pub proof fn lemma_find_from_bounds(s: Seq<char>, needle: Seq<char>, i: int)
    requires
        0 <= i,
    ensures
        find_from(s, needle, i) matches Some(k) ==> i <= k && crate::css::occurs_at(s, needle, k),
    decreases s.len() + 1 - i,
{
    if i + needle.len() <= s.len() && !crate::css::occurs_at(s, needle, i) {
        lemma_find_from_bounds(s, needle, i + 1);
    }
}

pub(crate) fn find_from_exec(chars: &Vec<char>, needle: &Vec<char>, start: usize) -> (r: Option<usize>)
    ensures
        match r {
            Some(k) => find_from(chars@, needle@, start as int) == Some(k as int),
            None => find_from(chars@, needle@, start as int) is None,
        },
{
    if needle.len() > chars.len() || start > chars.len() - needle.len() {
        return None;
    }
    let last = chars.len() - needle.len();
    let mut i = start;
    loop
        invariant
            start <= i <= last,
            last + needle@.len() == chars@.len(),
            find_from(chars@, needle@, start as int) == find_from(chars@, needle@, i as int),
        decreases last - i,
    {
        if crate::css::occurs_at_exec(chars, needle, i) {
            return Some(i);
        }
        if i == last {
            assert(find_from(chars@, needle@, i + 1) is None);
            return None;
        }
        i = i + 1;
    }
}

/// The opening of a `calc()` that multiplies the spacing scale.
pub open spec fn spacing_calc_prefix() -> Seq<char> {
    "calc(var(--spacing)*"@
}

pub proof fn lemma_spacing_calc_close(s: Seq<char>, start: int)
    requires
        crate::css::occurs_at(s, spacing_calc_prefix(), start),
    ensures
        spacing_calc_prefix().len() == 20,
        start + 20 <= s.len(),
        closing_paren_from(s, start + 4, 0) == closing_paren_from(s, start + 20, 1),
        closing_paren_from(s, start + 4, 0) matches Some(k) ==> start + 20 <= k < s.len(),
{
    reveal_strlit("calc(var(--spacing)*");
    let p = spacing_calc_prefix();
    assert(p =~= seq!['c', 'a', 'l', 'c', '(', 'v', 'a', 'r', '(', '-', '-', 's', 'p', 'a', 'c', 'i', 'n', 'g', ')', '*']);
    assert forall|k: int| 0 <= k < 20 implies s[start + k] == p[k] by {
        assert(s.subrange(start, start + 20)[k] == s[start + k]);
    }
    assert(s[start + 4] == '(' && s[start + 8] == '(' && s[start + 18] == ')' && s[start + 19] == '*');
    assert(s[start + 5] == 'v' && s[start + 6] == 'a' && s[start + 7] == 'r' && s[start + 9] == '-');
    assert(s[start + 10] == '-' && s[start + 11] == 's' && s[start + 12] == 'p' && s[start + 13] == 'a');
    assert(s[start + 14] == 'c' && s[start + 15] == 'i' && s[start + 16] == 'n' && s[start + 17] == 'g');
    assert(closing_paren_from(s, start + 19, 1) == closing_paren_from(s, start + 20, 1));
    assert(closing_paren_from(s, start + 18, 2) == closing_paren_from(s, start + 19, 1));
    assert(closing_paren_from(s, start + 17, 2) == closing_paren_from(s, start + 18, 2));
    assert(closing_paren_from(s, start + 16, 2) == closing_paren_from(s, start + 17, 2));
    assert(closing_paren_from(s, start + 15, 2) == closing_paren_from(s, start + 16, 2));
    assert(closing_paren_from(s, start + 14, 2) == closing_paren_from(s, start + 15, 2));
    assert(closing_paren_from(s, start + 13, 2) == closing_paren_from(s, start + 14, 2));
    assert(closing_paren_from(s, start + 12, 2) == closing_paren_from(s, start + 13, 2));
    assert(closing_paren_from(s, start + 11, 2) == closing_paren_from(s, start + 12, 2));
    assert(closing_paren_from(s, start + 10, 2) == closing_paren_from(s, start + 11, 2));
    assert(closing_paren_from(s, start + 9, 2) == closing_paren_from(s, start + 10, 2));
    assert(closing_paren_from(s, start + 8, 1) == closing_paren_from(s, start + 9, 2));
    assert(closing_paren_from(s, start + 7, 1) == closing_paren_from(s, start + 8, 1));
    assert(closing_paren_from(s, start + 6, 1) == closing_paren_from(s, start + 7, 1));
    assert(closing_paren_from(s, start + 5, 1) == closing_paren_from(s, start + 6, 1));
    assert(closing_paren_from(s, start + 4, 0) == closing_paren_from(s, start + 5, 1));
    lemma_closing_paren_bounds(s, start + 20, 1);
}

/// `s` from `cursor` on with each `calc(var(--spacing)*n)` written as `--spacing(n)`.
pub open spec fn spacing_calcs_from(s: Seq<char>, cursor: int) -> Seq<char>
    decreases s.len() - cursor,
{
    if cursor < 0 || cursor > s.len() {
        Seq::empty()
    } else {
        match find_from(s, spacing_calc_prefix(), cursor) {
            None => s.subrange(cursor, s.len() as int),
            Some(start) => match closing_paren_from(s, start + 4, 0) {
                None => s.subrange(cursor, s.len() as int),
                Some(close) => if start < cursor || close < start + 20 || close >= s.len() {
                    Seq::empty()
                } else {
                    s.subrange(cursor, start) + "--spacing("@ + s.subrange(start + 20, close) + ")"@
                        + spacing_calcs_from(s, close + 1)
                },
            },
        }
    }
}

/// `input` with each `calc(var(--spacing)*n)` written as `--spacing(n)`.
pub open spec fn spec_rewrite_spacing_calculations(input: Seq<char>) -> Seq<char> {
    spacing_calcs_from(input, 0)
}

pub(crate) fn push_range(out: &mut String, chars: &Vec<char>, from: usize, to: usize)
    requires
        from <= to <= chars@.len(),
    ensures
        final(out)@ == old(out)@ + chars@.subrange(from as int, to as int),
{
    let mut i = from;
    while i < to
        invariant
            from <= i <= to <= chars@.len(),
            out@ == old(out)@ + chars@.subrange(from as int, i as int),
        decreases to - i,
    {
        push_char(out, chars[i]);
        assert(chars@.subrange(from as int, i + 1) =~= chars@.subrange(from as int, i as int).push(chars@[i as int]));
        i = i + 1;
    }
}

pub fn rewrite_spacing_calculations(input: &str) -> (r: String)
    ensures
        r@ == spec_rewrite_spacing_calculations(input@),
{
    let chars = chars_of(input);
    let prefix = chars_of("calc(var(--spacing)*");
    let mut out = String::new();
    let mut cursor: usize = 0;
    loop
        invariant
            chars@ == input@,
            prefix@ == spacing_calc_prefix(),
            chars@.len() <= usize::MAX,
            cursor <= chars@.len(),
            out@ + spacing_calcs_from(input@, cursor as int) == spec_rewrite_spacing_calculations(input@),
        ensures
            cursor <= chars@.len(),
            out@ + spacing_calcs_from(input@, cursor as int) == spec_rewrite_spacing_calculations(input@),
            spacing_calcs_from(input@, cursor as int) == input@.subrange(cursor as int, input@.len() as int),
        decreases chars@.len() - cursor,
    {
        proof {
            lemma_find_from_bounds(input@, prefix@, cursor as int);
        }
        let start = match find_from_exec(&chars, &prefix, cursor) {
            Some(start) => start,
            None => break,
        };
        proof {
            lemma_spacing_calc_close(input@, start as int);
        }
        let close = match matching_parenthesis(&chars, start + 4) {
            Some(close) => close,
            None => break,
        };
        let ghost before = out@;
        push_range(&mut out, &chars, cursor, start);
        push_str(&mut out, "--spacing(");
        push_range(&mut out, &chars, start + 20, close);
        push_str(&mut out, ")");
        assert(out@ + spacing_calcs_from(input@, close + 1) =~= before + spacing_calcs_from(input@, cursor as int));
        cursor = close + 1;
    }
    let ghost before = out@;
    push_range(&mut out, &chars, cursor, chars.len());
    assert(out@ =~= before + spacing_calcs_from(input@, cursor as int));
    out
}

/// `s` without its trailing spaces.
pub open spec fn trim_trailing_spaces(s: Seq<char>) -> Seq<char>
    decreases s.len(),
{
    if s.len() > 0 && s.last() == ' ' {
        trim_trailing_spaces(s.drop_last())
    } else {
        s
    }
}

/// One step of comma-whitespace normalisation: the text so far and whether whitespace is
/// pending, after reading `c`.
pub open spec fn comma_whitespace_step(state: (Seq<char>, bool), c: char) -> (Seq<char>, bool) {
    let (out, pending) = state;
    if is_ascii_whitespace(c) {
        (out, true)
    } else if c == ',' {
        (trim_trailing_spaces(out).push(','), false)
    } else if pending && out.len() > 0 && out.last() != ',' {
        (out.push(' ').push(c), false)
    } else {
        (out.push(c), false)
    }
}

pub open spec fn comma_whitespace_state(s: Seq<char>) -> (Seq<char>, bool)
    decreases s.len(),
{
    if s.len() == 0 {
        (Seq::empty(), false)
    } else {
        comma_whitespace_step(comma_whitespace_state(s.drop_last()), s.last())
    }
}

/// `input` with each run of ASCII whitespace dropped before and after a comma and at the ends,
/// and kept as one space elsewhere.
pub open spec fn spec_normalize_comma_whitespace(input: Seq<char>) -> Seq<char> {
    comma_whitespace_state(input).0
}

pub fn normalize_comma_whitespace(input: &str) -> (r: String)
    ensures
        r@ == spec_normalize_comma_whitespace(input@),
{
    let chars = chars_of(input);
    let mut out: Vec<char> = Vec::new();
    let mut pending = false;
    let mut i: usize = 0;
    while i < chars.len()
        invariant
            chars@ == input@,
            i <= chars@.len(),
            (out@, pending) == comma_whitespace_state(input@.take(i as int)),
        decreases chars.len() - i,
    {
        assert(input@.take(i + 1).drop_last() =~= input@.take(i as int));
        let c = chars[i];
        if char_is_ascii_whitespace(c) {
            pending = true;
        } else if c == ',' {
            let ghost before = out@;
            while out.len() > 0 && out[out.len() - 1] == ' '
                invariant
                    trim_trailing_spaces(out@) == trim_trailing_spaces(before),
                decreases out.len(),
            {
                assert(out@.drop_last() == out@.subrange(0, out@.len() - 1));
                out.pop();
            }
            out.push(',');
            pending = false;
        } else {
            if pending && out.len() > 0 && out[out.len() - 1] != ',' {
                out.push(' ');
            }
            pending = false;
            out.push(c);
        }
        i = i + 1;
    }
    assert(input@.take(chars@.len() as int) =~= input@);
    crate::text::string_from_chars(&out)
}

/// The scan for an operator outside parentheses from `i` on: the last one found so far, or
/// `None` for the whole scan when a `)` closes nothing.
pub open spec fn operator_scan(s: Seq<char>, operators: Seq<char>, i: int, depth: nat, found: Option<(int, char)>) -> Option<(int, char)>
    decreases s.len() - i,
{
    if i < 0 || i >= s.len() {
        found
    } else {
        let c = s[i];
        if c == '(' {
            operator_scan(s, operators, i + 1, depth + 1, found)
        } else if c == ')' {
            if depth == 0 {
                None
            } else {
                operator_scan(s, operators, i + 1, (depth - 1) as nat, found)
            }
        } else if depth == 0 && operators.contains(c) && i > 0 {
            let previous = s[i - 1];
            let next = if previous == '+' || previous == '-' || previous == '*' || previous == '/' {
                found
            } else {
                Some((i, c))
            };
            operator_scan(s, operators, i + 1, depth, next)
        } else {
            operator_scan(s, operators, i + 1, depth, found)
        }
    }
}

/// The last operator of `operators` outside parentheses that follows no other operator, with
/// its character position; `None` when there is none or a `)` closes nothing.
pub open spec fn spec_top_level_operator(value: Seq<char>, operators: Seq<char>) -> Option<(int, char)> {
    operator_scan(value, operators, 0, 0, None)
}

pub fn top_level_operator(value: &str, operators: &Vec<char>) -> (r: Option<(usize, char)>)
    ensures
        match r {
            Some((k, c)) => spec_top_level_operator(value@, operators@) == Some((k as int, c)),
            None => spec_top_level_operator(value@, operators@) is None,
        },
{
    let chars = chars_of(value);
    let mut depth: usize = 0;
    let mut found: Option<(usize, char)> = None;
    let mut i: usize = 0;
    while i < chars.len()
        invariant
            chars@ == value@,
            i <= chars@.len(),
            depth <= i,
            found matches Some((k, _)) ==> k < i,
            spec_top_level_operator(value@, operators@) == operator_scan(value@, operators@, i as int, depth as nat,
                match found { Some((k, c)) => Some((k as int, c)), None => None }),
        decreases chars.len() - i,
    {
        let c = chars[i];
        if c == '(' {
            depth = depth + 1;
        } else if c == ')' {
            if depth == 0 {
                return None;
            }
            depth = depth - 1;
        } else if depth == 0 && i > 0 && contains_operator(operators, c) {
            let previous = chars[i - 1];
            if !(previous == '+' || previous == '-' || previous == '*' || previous == '/') {
                found = Some((i, c));
            }
        }
        i = i + 1;
    }
    found
}

fn contains_operator(operators: &Vec<char>, c: char) -> (r: bool)
    ensures
        r == operators@.contains(c),
{
    let mut k: usize = 0;
    while k < operators.len()
        invariant
            k <= operators@.len(),
            forall|j: int| 0 <= j < k ==> operators@[j] != c,
        decreases operators.len() - k,
    {
        if operators[k] == c {
            return true;
        }
        k = k + 1;
    }
    false
}

pub proof fn lemma_join_ends_with_last(parts: Seq<Seq<char>>, sep: char)
    requires
        parts.len() >= 1,
    ensures
        is_suffix(parts.last(), crate::text::join_with(parts, sep)),
    decreases parts.len(),
{
    if parts.len() > 1 {
        lemma_join_ends_with_last(parts.drop_first(), sep);
        let rest = crate::text::join_with(parts.drop_first(), sep);
        let whole = parts[0] + seq![sep] + rest;
        assert(parts.drop_first().last() == parts.last());
        assert(whole.subrange(whole.len() - parts.last().len(), whole.len() as int)
            =~= rest.subrange(rest.len() - parts.last().len(), rest.len() as int));
    } else {
        assert(parts[0].subrange(0, parts[0].len() as int) =~= parts[0]);
    }
}

/// The text of the last `:`-separated segment of `s`: the utility with its important mark.
pub open spec fn last_segment(s: Seq<char>) -> Seq<char> {
    crate::segment::spec_segment(s, ':').last()
}

/// A class split for collapsing: the variant prefix (with its trailing `:`), the value that
/// follows `root-` in the utility, and the important mark (`!` or empty).
pub open spec fn spec_class_parts(class_name: Seq<char>, root: Seq<char>) -> Option<(Seq<char>, Seq<char>, Seq<char>)> {
    let utility = last_segment(class_name);
    let prefix = class_name.subrange(0, class_name.len() - utility.len());
    let body = match before_suffix(utility, "!"@) { Some(b) => b, None => utility };
    let important = if before_suffix(utility, "!"@) is Some { "!"@ } else { ""@ };
    let after_root = body.subrange(root.len() as int, body.len() as int);
    let value = after_root.subrange("-"@.len() as int, after_root.len() as int);
    if is_prefix(root, body) && is_prefix("-"@, after_root) && value.len() > 0 {
        Some((prefix, value, important))
    } else {
        None
    }
}

pub fn class_parts<'a>(class_name: &'a str, expected_root: &str) -> (r: Option<(&'a str, &'a str, &'static str)>)
    ensures
        match r {
            Some((p, v, i)) => spec_class_parts(class_name@, expected_root@) == Some((p@, v@, i@)),
            None => spec_class_parts(class_name@, expected_root@) is None,
        },
{
    let segments = crate::segment::segment(class_name, 58u8);
    proof {
        crate::segment::segment_rejoins(class_name@, ':');
        lemma_join_ends_with_last(crate::segment::spec_segment(class_name@, ':'), ':');
    }
    let utility = segments[segments.len() - 1];
    assert(utility@ == last_segment(class_name@));
    let n = class_name.unicode_len();
    let u = utility.unicode_len();
    let prefix = class_name.substring_char(0, n - u);
    let (body, important) = match strip_suffix(utility, "!") {
        Some(b) => {
            assert(utility@.subrange(0, utility@.len() - "!"@.len()) =~= b@);
            (b, "!")
        },
        None => (utility, ""),
    };
    let after_root = match strip_prefix(body, expected_root) {
        Some(rest) => {
            assert(body@.subrange(expected_root@.len() as int, body@.len() as int) =~= rest@);
            rest
        },
        None => return None,
    };
    let value = match strip_prefix(after_root, "-") {
        Some(rest) => {
            assert(after_root@.subrange("-"@.len() as int, after_root@.len() as int) =~= rest@);
            rest
        },
        None => return None,
    };
    if value.unicode_len() == 0 {
        return None;
    }
    Some((prefix, value, important))
}

/// Longhand roots that one shorthand root replaces when they share a value.
pub struct CollapsePattern {
    pub inputs: Vec<&'static str>,
    pub output: &'static str,
}

pub open spec fn pattern_view(p: CollapsePattern) -> (Seq<Seq<char>>, Seq<char>) {
    (crate::text::views(p.inputs@), p.output@)
}

pub open spec fn pattern_views(ps: Seq<CollapsePattern>) -> Seq<(Seq<Seq<char>>, Seq<char>)> {
    ps.map_values(|p: CollapsePattern| pattern_view(p))
}

/// The collapse patterns, tried in this order; the last two only when logical properties are
/// written as physical ones.
pub open spec fn spec_collapse_patterns(logical_to_physical: bool) -> Seq<(Seq<Seq<char>>, Seq<char>)> {
    let base = seq![
        (seq!["w"@, "h"@], "size"@),
        (seq!["top"@, "right"@, "bottom"@, "left"@], "inset"@),
        (seq!["inset-x"@, "inset-y"@], "inset"@),
        (seq!["mt"@, "mr"@, "mb"@, "ml"@], "m"@),
        (seq!["pt"@, "pr"@, "pb"@, "pl"@], "p"@),
        (seq!["mx"@, "my"@], "m"@),
        (seq!["px"@, "py"@], "p"@),
        (seq!["ms"@, "me"@], "mx"@),
        (seq!["ps"@, "pe"@], "px"@),
        (seq!["mt"@, "mb"@], "my"@),
        (seq!["pt"@, "pb"@], "py"@),
        (seq!["border-t"@, "border-r"@, "border-b"@, "border-l"@], "border"@),
        (seq!["border-x"@, "border-y"@], "border"@),
        (seq!["border-t"@, "border-b"@], "border-y"@),
        (seq!["border-l"@, "border-r"@], "border-x"@),
        (seq!["scroll-mt"@, "scroll-mr"@, "scroll-mb"@, "scroll-ml"@], "scroll-m"@),
        (seq!["scroll-pt"@, "scroll-pr"@, "scroll-pb"@, "scroll-pl"@], "scroll-p"@),
        (seq!["scroll-mx"@, "scroll-my"@], "scroll-m"@),
        (seq!["scroll-mt"@, "scroll-mb"@], "scroll-my"@),
        (seq!["scroll-ms"@, "scroll-me"@], "scroll-mx"@),
        (seq!["scroll-px"@, "scroll-py"@], "scroll-p"@),
        (seq!["scroll-pt"@, "scroll-pb"@], "scroll-py"@),
        (seq!["scroll-ps"@, "scroll-pe"@], "scroll-px"@),
        (seq!["overflow-x"@, "overflow-y"@], "overflow"@),
        (seq!["overscroll-x"@, "overscroll-y"@], "overscroll"@),
        (seq!["gap-x"@, "gap-y"@], "gap"@),
        (seq!["translate-x"@, "translate-y"@], "translate"@),
        (seq!["rotate-x"@, "rotate-y"@], "rotate"@),
        (seq!["scale-x"@, "scale-y"@], "scale"@)
    ];
    if logical_to_physical {
        base + seq![(seq!["ml"@, "mr"@], "mx"@), (seq!["pl"@, "pr"@], "px"@)]
    } else {
        base
    }
}

#[verifier::spinoff_prover]
#[verifier::rlimit(60)]
pub fn collapse_patterns(logical_to_physical: bool) -> (r: Vec<CollapsePattern>)
    ensures
        pattern_views(r@) == spec_collapse_patterns(logical_to_physical),
        forall|k: int| 0 <= k < r@.len() ==> (#[trigger] r@[k]).inputs@.len() >= 2,
{
    let mut patterns: Vec<CollapsePattern> = Vec::new();
    patterns.push(CollapsePattern { inputs: vec!["w", "h"], output: "size" });
    patterns.push(CollapsePattern { inputs: vec!["top", "right", "bottom", "left"], output: "inset" });
    patterns.push(CollapsePattern { inputs: vec!["inset-x", "inset-y"], output: "inset" });
    patterns.push(CollapsePattern { inputs: vec!["mt", "mr", "mb", "ml"], output: "m" });
    patterns.push(CollapsePattern { inputs: vec!["pt", "pr", "pb", "pl"], output: "p" });
    patterns.push(CollapsePattern { inputs: vec!["mx", "my"], output: "m" });
    patterns.push(CollapsePattern { inputs: vec!["px", "py"], output: "p" });
    patterns.push(CollapsePattern { inputs: vec!["ms", "me"], output: "mx" });
    patterns.push(CollapsePattern { inputs: vec!["ps", "pe"], output: "px" });
    patterns.push(CollapsePattern { inputs: vec!["mt", "mb"], output: "my" });
    patterns.push(CollapsePattern { inputs: vec!["pt", "pb"], output: "py" });
    patterns.push(CollapsePattern { inputs: vec!["border-t", "border-r", "border-b", "border-l"], output: "border" });
    patterns.push(CollapsePattern { inputs: vec!["border-x", "border-y"], output: "border" });
    patterns.push(CollapsePattern { inputs: vec!["border-t", "border-b"], output: "border-y" });
    patterns.push(CollapsePattern { inputs: vec!["border-l", "border-r"], output: "border-x" });
    patterns.push(CollapsePattern { inputs: vec!["scroll-mt", "scroll-mr", "scroll-mb", "scroll-ml"], output: "scroll-m" });
    patterns.push(CollapsePattern { inputs: vec!["scroll-pt", "scroll-pr", "scroll-pb", "scroll-pl"], output: "scroll-p" });
    patterns.push(CollapsePattern { inputs: vec!["scroll-mx", "scroll-my"], output: "scroll-m" });
    patterns.push(CollapsePattern { inputs: vec!["scroll-mt", "scroll-mb"], output: "scroll-my" });
    patterns.push(CollapsePattern { inputs: vec!["scroll-ms", "scroll-me"], output: "scroll-mx" });
    patterns.push(CollapsePattern { inputs: vec!["scroll-px", "scroll-py"], output: "scroll-p" });
    patterns.push(CollapsePattern { inputs: vec!["scroll-pt", "scroll-pb"], output: "scroll-py" });
    patterns.push(CollapsePattern { inputs: vec!["scroll-ps", "scroll-pe"], output: "scroll-px" });
    patterns.push(CollapsePattern { inputs: vec!["overflow-x", "overflow-y"], output: "overflow" });
    patterns.push(CollapsePattern { inputs: vec!["overscroll-x", "overscroll-y"], output: "overscroll" });
    patterns.push(CollapsePattern { inputs: vec!["gap-x", "gap-y"], output: "gap" });
    patterns.push(CollapsePattern { inputs: vec!["translate-x", "translate-y"], output: "translate" });
    patterns.push(CollapsePattern { inputs: vec!["rotate-x", "rotate-y"], output: "rotate" });
    patterns.push(CollapsePattern { inputs: vec!["scale-x", "scale-y"], output: "scale" });
    if logical_to_physical {
        patterns.push(CollapsePattern { inputs: vec!["ml", "mr"], output: "mx" });
        patterns.push(CollapsePattern { inputs: vec!["pl", "pr"], output: "px" });
    }
    assert(pattern_views(patterns@) =~~= spec_collapse_patterns(logical_to_physical));
    patterns
}

pub open spec fn string_views(v: Seq<String>) -> Seq<Seq<char>> {
    v.map_values(|t: String| t@)
}

/// The first index from `i` on whose class splits around `root`.
pub open spec fn first_split(classes: Seq<Seq<char>>, root: Seq<char>, i: int) -> Option<int>
    decreases classes.len() - i,
{
    if i < 0 || i >= classes.len() {
        None
    } else if spec_class_parts(classes[i], root) is Some {
        Some(i)
    } else {
        first_split(classes, root, i + 1)
    }
}

/// The first index from `j` on, not in `used`, whose class splits around `root` into `parts`.
pub open spec fn partner_from(classes: Seq<Seq<char>>, root: Seq<char>, parts: (Seq<char>, Seq<char>, Seq<char>), used: Seq<int>, j: int) -> Option<int>
    decreases classes.len() - j,
{
    if j < 0 || j >= classes.len() {
        None
    } else if !used.contains(j) && spec_class_parts(classes[j], root) == Some(parts) {
        Some(j)
    } else {
        partner_from(classes, root, parts, used, j + 1)
    }
}

pub proof fn lemma_partner_from_range(classes: Seq<Seq<char>>, root: Seq<char>, parts: (Seq<char>, Seq<char>, Seq<char>), used: Seq<int>, j: int)
    requires
        0 <= j,
    ensures
        partner_from(classes, root, parts, used, j) matches Some(p) ==> j <= p < classes.len() && !used.contains(p),
    decreases classes.len() - j,
{
    if j < classes.len() && !(!used.contains(j) && spec_class_parts(classes[j], root) == Some(parts)) {
        lemma_partner_from_range(classes, root, parts, used, j + 1);
    }
}

/// Whether `indices` lists two different positions of a list of `n` classes.
pub open spec fn lists_two(indices: Seq<int>, n: int) -> bool {
    exists|a: int, b: int|
        #![trigger indices.contains(a), indices.contains(b)]
        a != b && 0 <= a < n && 0 <= b < n && indices.contains(a) && indices.contains(b)
}

/// `used` extended with one partner for each of `roots` in turn, or `None` when one is missing.
pub open spec fn partners(classes: Seq<Seq<char>>, roots: Seq<Seq<char>>, parts: (Seq<char>, Seq<char>, Seq<char>), used: Seq<int>) -> Option<Seq<int>>
    decreases roots.len(),
{
    if roots.len() == 0 {
        Some(used)
    } else {
        match partner_from(classes, roots[0], parts, used, 0) {
            None => None,
            Some(j) => partners(classes, roots.drop_first(), parts, used.push(j)),
        }
    }
}

/// The shorthand class: a border width of `1` is the bare border utility.
pub open spec fn collapse_text(parts: (Seq<char>, Seq<char>, Seq<char>), output: Seq<char>) -> Seq<char> {
    let (prefix, value, important) = parts;
    if value == "1"@ && is_prefix("border"@, output) {
        prefix + output + important
    } else {
        prefix + output + "-"@ + value + important
    }
}

/// The classes that `pattern` collapses and the class that replaces them: the first class that
/// splits around the pattern's first root, with one unused partner per other root sharing its
/// prefix, value and important mark. `None` when the first such class lacks a partner.
pub open spec fn spec_find_collapse(classes: Seq<Seq<char>>, pattern: (Seq<Seq<char>>, Seq<char>)) -> Option<(Seq<int>, Seq<char>)> {
    let (inputs, output) = pattern;
    match first_split(classes, inputs[0], 0) {
        None => None,
        Some(f) => {
            let parts = spec_class_parts(classes[f], inputs[0])->0;
            match partners(classes, inputs.drop_first(), parts, seq![f]) {
                None => None,
                Some(indices) => Some((crate::enforce_shorthand_classes::sort_ints(indices), collapse_text(parts, output))),
            }
        },
    }
}

fn same_parts(a: (&str, &str, &str), b: (&str, &str, &str)) -> (r: bool)
    ensures
        r == ((a.0@, a.1@, a.2@) == (b.0@, b.1@, b.2@)),
{
    str_eq(a.0, b.0) && str_eq(a.1, b.1) && str_eq(a.2, b.2)
}

fn partner_exec(classes: &Vec<String>, root: &str, parts: (&str, &str, &str), used: &Vec<usize>) -> (r: Option<usize>)
    ensures
        match r {
            Some(j) => partner_from(string_views(classes@), root@, (parts.0@, parts.1@, parts.2@), crate::enforce_shorthand_classes::ints(used@), 0) == Some(j as int),
            None => partner_from(string_views(classes@), root@, (parts.0@, parts.1@, parts.2@), crate::enforce_shorthand_classes::ints(used@), 0) is None,
        },
{
    let ghost cs = string_views(classes@);
    let ghost want = (parts.0@, parts.1@, parts.2@);
    let ghost us = crate::enforce_shorthand_classes::ints(used@);
    let mut j: usize = 0;
    while j < classes.len()
        invariant
            cs == string_views(classes@),
            want == (parts.0@, parts.1@, parts.2@),
            us == crate::enforce_shorthand_classes::ints(used@),
            j <= classes@.len(),
            partner_from(cs, root@, want, us, 0) == partner_from(cs, root@, want, us, j as int),
        decreases classes.len() - j,
    {
        if !crate::enforce_shorthand_classes::contains_index(used, j) {
            if let Some(found) = class_parts(classes[j].as_str(), root) {
                if same_parts(found, parts) {
                    return Some(j);
                }
            }
        }
        j = j + 1;
    }
    None
}

fn first_split_exec<'a>(classes: &'a Vec<String>, root: &str) -> (r: Option<(usize, (&'a str, &'a str, &'static str))>)
    ensures
        match r {
            Some((f, parts)) => first_split(string_views(classes@), root@, 0) == Some(f as int)
                && f < classes@.len()
                && spec_class_parts(string_views(classes@)[f as int], root@) == Some((parts.0@, parts.1@, parts.2@)),
            None => first_split(string_views(classes@), root@, 0) is None,
        },
{
    let ghost cs = string_views(classes@);
    let mut f: usize = 0;
    while f < classes.len()
        invariant
            cs == string_views(classes@),
            f <= classes@.len(),
            first_split(cs, root@, 0) == first_split(cs, root@, f as int),
        decreases classes.len() - f,
    {
        if let Some(parts) = class_parts(classes[f].as_str(), root) {
            return Some((f, parts));
        }
        f = f + 1;
    }
    None
}

pub fn find_collapse(classes: &Vec<String>, pattern: &CollapsePattern) -> (r: Option<(Vec<usize>, String)>)
    requires
        pattern.inputs@.len() >= 1,
    ensures
        match r {
            Some((indices, text)) => spec_find_collapse(string_views(classes@), pattern_view(*pattern))
                == Some((crate::enforce_shorthand_classes::ints(indices@), text@)),
            None => spec_find_collapse(string_views(classes@), pattern_view(*pattern)) is None,
        },
        match r {
            Some((indices, _)) => pattern.inputs@.len() >= 2
                ==> lists_two(crate::enforce_shorthand_classes::ints(indices@), classes@.len() as int),
            None => true,
        },
{
    let ghost cs = string_views(classes@);
    let ghost roots = crate::text::views(pattern.inputs@);
    let (f, parts) = match first_split_exec(classes, pattern.inputs[0]) {
        Some(found) => found,
        None => return None,
    };
    let ghost want = (parts.0@, parts.1@, parts.2@);
    assert(first_split(cs, roots[0], 0) == Some(f as int));
    let mut used: Vec<usize> = vec![f];
    assert(crate::enforce_shorthand_classes::ints(used@) =~= seq![f as int]);
    let mut k: usize = 1;
    while k < pattern.inputs.len()
        invariant
            cs == string_views(classes@),
            roots == crate::text::views(pattern.inputs@),
            1 <= k <= roots.len(),
            want == (parts.0@, parts.1@, parts.2@),
            f < cs.len(),
            first_split(cs, roots[0], 0) == Some(f as int),
            spec_class_parts(cs[f as int], roots[0]) == Some(want),
            partners(cs, roots.drop_first(), want, seq![f as int])
                == partners(cs, roots.skip(k as int), want, crate::enforce_shorthand_classes::ints(used@)),
            used@.len() == k,
            used@[0] == f,
            k >= 2 ==> used@[1] != f && used@[1] < cs.len(),
        decreases pattern.inputs.len() - k,
    {
        assert(roots.skip(k as int)[0] == pattern.inputs@[k as int]@);
        assert(roots.skip(k as int).drop_first() =~= roots.skip(k + 1));
        match partner_exec(classes, pattern.inputs[k], parts, &used) {
            None => {
                assert(partners(cs, roots.skip(k as int), want, crate::enforce_shorthand_classes::ints(used@)) is None);
                return None;
            },
            Some(j) => {
                let ghost before = crate::enforce_shorthand_classes::ints(used@);
                proof {
                    lemma_partner_from_range(cs, pattern.inputs@[k as int]@, want, before, 0);
                    assert(before[0] == f as int);
                }
                used.push(j);
                assert(crate::enforce_shorthand_classes::ints(used@) =~= before.push(j as int));
            },
        }
        k = k + 1;
    }
    assert(roots.skip(k as int) =~= Seq::<Seq<char>>::empty());
    assert(roots.drop_first() =~= roots.skip(1));
    let indices = crate::enforce_shorthand_classes::sort_indices(&used);
    proof {
        if pattern.inputs@.len() >= 2 {
            broadcast use vstd::seq_lib::group_to_multiset_ensures;
            let listed = crate::enforce_shorthand_classes::ints(used@);
            crate::enforce_shorthand_classes::sort_ints_sorts(listed);
            let sorted = crate::enforce_shorthand_classes::ints(indices@);
            assert(listed[0] == f as int);
            assert(listed[1] == used@[1] as int);
            assert(listed.contains(f as int));
            assert(listed.contains(used@[1] as int));
            assert(sorted == crate::enforce_shorthand_classes::sort_ints(listed));
            vstd::seq_lib::to_multiset_contains(listed, f as int);
            vstd::seq_lib::to_multiset_contains(listed, used@[1] as int);
            vstd::seq_lib::to_multiset_contains(sorted, f as int);
            vstd::seq_lib::to_multiset_contains(sorted, used@[1] as int);
            assert(sorted.contains(f as int));
            assert(sorted.contains(used@[1] as int));
        }
    }
    let (prefix, value, important) = parts;
    let text = if str_eq(value, "1") && crate::text::starts_with(pattern.output, "border") {
        concat3(prefix, pattern.output, important)
    } else {
        let mut t = concat3(prefix, pattern.output, "-");
        push_str(&mut t, value);
        push_str(&mut t, important);
        t
    };
    Some((indices, text))
}

/// The position of the first `c` in `s`.
pub open spec fn first_index_of(s: Seq<char>, c: char, i: int) -> Option<int>
    decreases s.len() - i,
{
    if i < 0 || i >= s.len() {
        None
    } else if s[i] == c {
        Some(i)
    } else {
        first_index_of(s, c, i + 1)
    }
}

pub proof fn lemma_first_index_of_bounds(s: Seq<char>, c: char, i: int)
    requires
        0 <= i,
    ensures
        first_index_of(s, c, i) matches Some(k) ==> i <= k < s.len() && s[k] == c,
    decreases s.len() - i,
{
    if i < s.len() && s[i] != c {
        lemma_first_index_of_bounds(s, c, i + 1);
    }
}

/// `s` split around its first `c` (`str::split_once`).
pub open spec fn spec_split_once(s: Seq<char>, c: char) -> Option<(Seq<char>, Seq<char>)> {
    match first_index_of(s, c, 0) {
        Some(k) => Some((s.subrange(0, k), s.subrange(k + 1, s.len() as int))),
        None => None,
    }
}

pub fn split_once<'a>(s: &'a str, c: char) -> (r: Option<(&'a str, &'a str)>)
    ensures
        match r {
            Some((a, b)) => spec_split_once(s@, c) == Some((a@, b@)),
            None => spec_split_once(s@, c) is None,
        },
{
    proof {
        lemma_first_index_of_bounds(s@, c, 0);
    }
    let n = s.unicode_len();
    let mut i: usize = 0;
    while i < n
        invariant
            n == s@.len(),
            i <= n,
            first_index_of(s@, c, 0) == first_index_of(s@, c, i as int),
        decreases n - i,
    {
        if s.get_char(i) == c {
            return Some((s.substring_char(0, i), s.substring_char(i + 1, n)));
        }
        i = i + 1;
    }
    None
}

/// The Tailwind v4 names of renamed utilities.
pub open spec fn deprecated_replacement(utility: Seq<char>) -> Option<Seq<char>> {
    if utility == "bg-gradient-to-t"@ { Some("bg-linear-to-t"@) }
    else if utility == "bg-gradient-to-tr"@ { Some("bg-linear-to-tr"@) }
    else if utility == "bg-gradient-to-r"@ { Some("bg-linear-to-r"@) }
    else if utility == "bg-gradient-to-br"@ { Some("bg-linear-to-br"@) }
    else if utility == "bg-gradient-to-b"@ { Some("bg-linear-to-b"@) }
    else if utility == "bg-gradient-to-bl"@ { Some("bg-linear-to-bl"@) }
    else if utility == "bg-gradient-to-l"@ { Some("bg-linear-to-l"@) }
    else if utility == "bg-gradient-to-tl"@ { Some("bg-linear-to-tl"@) }
    else if utility == "order-none"@ { Some("order-0"@) }
    else if utility == "break-words"@ { Some("wrap-break-word"@) }
    else if utility == "overflow-ellipsis"@ { Some("text-ellipsis"@) }
    else { None }
}

fn deprecated_replacement_exec(utility: &str) -> (r: Option<&'static str>)
    ensures
        match r {
            Some(t) => deprecated_replacement(utility@) == Some(t@),
            None => deprecated_replacement(utility@) is None,
        },
{
    if str_eq(utility, "bg-gradient-to-t") { Some("bg-linear-to-t") }
    else if str_eq(utility, "bg-gradient-to-tr") { Some("bg-linear-to-tr") }
    else if str_eq(utility, "bg-gradient-to-r") { Some("bg-linear-to-r") }
    else if str_eq(utility, "bg-gradient-to-br") { Some("bg-linear-to-br") }
    else if str_eq(utility, "bg-gradient-to-b") { Some("bg-linear-to-b") }
    else if str_eq(utility, "bg-gradient-to-bl") { Some("bg-linear-to-bl") }
    else if str_eq(utility, "bg-gradient-to-l") { Some("bg-linear-to-l") }
    else if str_eq(utility, "bg-gradient-to-tl") { Some("bg-linear-to-tl") }
    else if str_eq(utility, "order-none") { Some("order-0") }
    else if str_eq(utility, "break-words") { Some("wrap-break-word") }
    else if str_eq(utility, "overflow-ellipsis") { Some("text-ellipsis") }
    else { None }
}

/// A utility without its important mark (at the end, else at the start) and the mark.
pub open spec fn unmarked_utility(utility: Seq<char>) -> (Seq<char>, Seq<char>) {
    if is_suffix("!"@, utility) {
        (utility.subrange(0, utility.len() - "!"@.len()), "!"@)
    } else if is_prefix("!"@, utility) {
        (utility.subrange("!"@.len() as int, utility.len() as int), "!"@)
    } else {
        (utility, ""@)
    }
}

/// The Tailwind v4 spelling of a class whose utility was renamed: fixed renames, and `start-*` /
/// `end-*` (possibly negative) as `inset-s-*` / `inset-e-*`. `None` for a utility that the
/// stylesheet defines itself, or one that was not renamed.
pub open spec fn spec_canonicalize_deprecated(design: DesignSystem, class_name: Seq<char>) -> Option<Seq<char>> {
    let utility = last_segment(class_name);
    let prefix = class_name.subrange(0, class_name.len() - utility.len());
    let (bare, important) = unmarked_utility(utility);
    if design.spec_custom_utility_properties(bare) is Some {
        None
    } else {
        match deprecated_replacement(bare) {
            Some(replacement) => Some(prefix + replacement + important),
            None => {
                let negative = is_prefix("-"@, bare);
                let positive = without_prefix(bare, "-"@);
                match spec_split_once(positive, '-') {
                    None => None,
                    Some((root, value)) => {
                        let renamed = if root == "start"@ {
                            Some("inset-s"@)
                        } else if root == "end"@ {
                            Some("inset-e"@)
                        } else {
                            None
                        };
                        match renamed {
                            None => None,
                            Some(renamed) => Some(prefix + (if negative { "-"@ } else { ""@ }) + renamed + "-"@ + value + important),
                        }
                    },
                }
            },
        }
    }
}

pub fn canonicalize_deprecated(design: &DesignSystem, class_name: &str) -> (r: Option<String>)
    ensures
        match r {
            Some(t) => spec_canonicalize_deprecated(*design, class_name@) == Some(t@),
            None => spec_canonicalize_deprecated(*design, class_name@) is None,
        },
{
    let segments = crate::segment::segment(class_name, 58u8);
    proof {
        crate::segment::segment_rejoins(class_name@, ':');
        lemma_join_ends_with_last(crate::segment::spec_segment(class_name@, ':'), ':');
    }
    let utility = segments[segments.len() - 1];
    assert(utility@ == last_segment(class_name@));
    let n = class_name.unicode_len();
    let u = utility.unicode_len();
    let prefix = class_name.substring_char(0, n - u);
    let (bare, important) = match strip_suffix(utility, "!") {
        Some(b) => {
            assert(utility@.subrange(0, utility@.len() - "!"@.len()) =~= b@);
            (b, "!")
        },
        None => match strip_prefix(utility, "!") {
            Some(b) => {
                assert(utility@.subrange("!"@.len() as int, utility@.len() as int) =~= b@);
                (b, "!")
            },
            None => (utility, ""),
        },
    };
    if design.custom_utility_properties(bare).is_some() {
        return None;
    }
    if let Some(replacement) = deprecated_replacement_exec(bare) {
        return Some(concat3(prefix, replacement, important));
    }
    let negative = crate::text::starts_with(bare, "-");
    let positive = strip_prefix_or_self(bare, "-");
    let (root, value) = match split_once(positive, '-') {
        Some(pair) => pair,
        None => return None,
    };
    let renamed = if str_eq(root, "start") {
        "inset-s"
    } else if str_eq(root, "end") {
        "inset-e"
    } else {
        return None;
    };
    let mut out = concat3(prefix, if negative { "-" } else { "" }, renamed);
    push_str(&mut out, "-");
    push_str(&mut out, value);
    push_str(&mut out, important);
    Some(out)
}

/// The theme variable that a legacy `theme(namespace.name)` value names, when the theme
/// defines it: colors, font sizes and families, radii and shadows.
pub open spec fn legacy_namespace(path: Seq<char>) -> Option<(Seq<char>, Seq<char>)> {
    if is_prefix("colors."@, path) { Some((path.subrange("colors."@.len() as int, path.len() as int), "--color-"@)) }
    else if is_prefix("fontSize."@, path) { Some((path.subrange("fontSize."@.len() as int, path.len() as int), "--text-"@)) }
    else if is_prefix("fontFamily."@, path) { Some((path.subrange("fontFamily."@.len() as int, path.len() as int), "--font-"@)) }
    else if is_prefix("borderRadius."@, path) { Some((path.subrange("borderRadius."@.len() as int, path.len() as int), "--radius-"@)) }
    else if is_prefix("boxShadow."@, path) { Some((path.subrange("boxShadow."@.len() as int, path.len() as int), "--shadow-"@)) }
    else { None }
}

fn legacy_namespace_exec(path: &str) -> (r: Option<(&str, &'static str)>)
    ensures
        match r {
            Some((name, namespace)) => legacy_namespace(path@) == Some((name@, namespace@)),
            None => legacy_namespace(path@) is None,
        },
{
    if let Some(name) = strip_prefix(path, "colors.") {
        assert(path@.subrange("colors."@.len() as int, path@.len() as int) =~= name@);
        Some((name, "--color-"))
    } else if let Some(name) = strip_prefix(path, "fontSize.") {
        assert(path@.subrange("fontSize."@.len() as int, path@.len() as int) =~= name@);
        Some((name, "--text-"))
    } else if let Some(name) = strip_prefix(path, "fontFamily.") {
        assert(path@.subrange("fontFamily."@.len() as int, path@.len() as int) =~= name@);
        Some((name, "--font-"))
    } else if let Some(name) = strip_prefix(path, "borderRadius.") {
        assert(path@.subrange("borderRadius."@.len() as int, path@.len() as int) =~= name@);
        Some((name, "--radius-"))
    } else if let Some(name) = strip_prefix(path, "boxShadow.") {
        assert(path@.subrange("boxShadow."@.len() as int, path@.len() as int) =~= name@);
        Some((name, "--shadow-"))
    } else {
        None
    }
}

pub open spec fn spec_legacy_theme_variable(design: DesignSystem, value: Seq<char>) -> Option<Seq<char>> {
    match enclosed_by(value, "theme("@) {
        None => None,
        Some(inner) => {
            let path = crate::text::trim_ws(inner);
            if path.contains(',') || path.contains('/') {
                None
            } else {
                match legacy_namespace(path) {
                    None => None,
                    Some((name, namespace)) => {
                        let variable = namespace + spec_hyphenate_theme_path(name);
                        if text_map_contents(design.theme).contains_key(variable) {
                            Some(variable)
                        } else {
                            None
                        }
                    },
                }
            }
        },
    }
}

pub fn legacy_theme_variable(design: &DesignSystem, value: &str) -> (r: Option<String>)
    ensures
        match r {
            Some(t) => spec_legacy_theme_variable(*design, value@) == Some(t@),
            None => spec_legacy_theme_variable(*design, value@) is None,
        },
{
    let inner = match enclosed(value, "theme(") {
        Some(inner) => inner,
        None => return None,
    };
    let path = crate::text::trim(inner);
    if crate::text::contains_char(path, ',') || crate::text::contains_char(path, '/') {
        return None;
    }
    let (name, namespace) = match legacy_namespace_exec(path) {
        Some(pair) => pair,
        None => return None,
    };
    let hyphenated = hyphenate_theme_path(name);
    let variable = concat2(namespace, hyphenated.as_str());
    if design.theme_value(variable.as_str()).is_some() {
        Some(variable)
    } else {
        None
    }
}

/// The track count of `repeat(n, minmax(0, 1fr))` for a positive `u32` count `n`.
pub open spec fn spec_canonical_grid_track_count(value: Seq<char>) -> Option<Seq<char>> {
    match enclosed_by(value, "repeat("@) {
        None => None,
        Some(body) => {
            let parts = crate::segment::spec_segment(body, ',');
            if parts.len() != 2 {
                None
            } else {
                let count = crate::text::trim_ws(parts[0]);
                let parsed = crate::numbers::parse_unsigned_spec(count, u32::MAX as int);
                if parsed matches Some(n) && n > 0 && without_ascii_whitespace(parts[1]) == "minmax(0,1fr)"@ {
                    Some(count)
                } else {
                    None
                }
            }
        },
    }
}

pub fn canonical_grid_track_count(value: &str) -> (r: Option<&str>)
    ensures
        match r {
            Some(t) => spec_canonical_grid_track_count(value@) == Some(t@),
            None => spec_canonical_grid_track_count(value@) is None,
        },
{
    let body = match enclosed(value, "repeat(") {
        Some(body) => body,
        None => return None,
    };
    let parts = crate::segment::segment(body, 44u8);
    if parts.len() != 2 {
        return None;
    }
    let count = crate::text::trim(parts[0]);
    let track = remove_ascii_whitespace(parts[1]);
    match crate::numbers::parse_u32(count) {
        Some(n) => if n > 0 && str_eq(track.as_str(), "minmax(0,1fr)") { Some(count) } else { None },
        None => None,
    }
}

/// Whether `value` without the unit `unit` at its end is a number `str::parse::<f64>` accepts.
pub open spec fn float_before_unit(value: Seq<char>, unit: Seq<char>) -> bool {
    is_suffix(unit, value) && crate::numbers::spec_parses_as_float(value.subrange(0, value.len() - unit.len()))
}

fn float_before_unit_exec(value: &str, unit: &str) -> (r: bool)
    ensures
        r == float_before_unit(value@, unit@),
{
    match strip_suffix(value, unit) {
        Some(number) => {
            assert(value@.subrange(0, value@.len() - unit@.len()) =~= number@);
            crate::numbers::parses_as_float(number)
        },
        None => false,
    }
}

/// Whether `value` is a number followed by a CSS length or percentage unit.
pub open spec fn spec_is_css_dimension(value: Seq<char>) -> bool {
    float_before_unit(value, "px"@)
        || float_before_unit(value, "rem"@)
        || float_before_unit(value, "em"@)
        || float_before_unit(value, "%"@)
        || float_before_unit(value, "ch"@)
        || float_before_unit(value, "ex"@)
        || float_before_unit(value, "cap"@)
        || float_before_unit(value, "lh"@)
        || float_before_unit(value, "rlh"@)
        || float_before_unit(value, "vw"@)
        || float_before_unit(value, "vh"@)
        || float_before_unit(value, "vmin"@)
        || float_before_unit(value, "vmax"@)
        || float_before_unit(value, "svw"@)
        || float_before_unit(value, "svh"@)
        || float_before_unit(value, "lvw"@)
        || float_before_unit(value, "lvh"@)
        || float_before_unit(value, "dvw"@)
        || float_before_unit(value, "dvh"@)
        || float_before_unit(value, "cm"@)
        || float_before_unit(value, "mm"@)
        || float_before_unit(value, "in"@)
        || float_before_unit(value, "pt"@)
        || float_before_unit(value, "pc"@)
}

pub fn is_css_dimension(value: &str) -> (r: bool)
    ensures
        r == spec_is_css_dimension(value@),
{
    float_before_unit_exec(value, "px")
        || float_before_unit_exec(value, "rem")
        || float_before_unit_exec(value, "em")
        || float_before_unit_exec(value, "%")
        || float_before_unit_exec(value, "ch")
        || float_before_unit_exec(value, "ex")
        || float_before_unit_exec(value, "cap")
        || float_before_unit_exec(value, "lh")
        || float_before_unit_exec(value, "rlh")
        || float_before_unit_exec(value, "vw")
        || float_before_unit_exec(value, "vh")
        || float_before_unit_exec(value, "vmin")
        || float_before_unit_exec(value, "vmax")
        || float_before_unit_exec(value, "svw")
        || float_before_unit_exec(value, "svh")
        || float_before_unit_exec(value, "lvw")
        || float_before_unit_exec(value, "lvh")
        || float_before_unit_exec(value, "dvw")
        || float_before_unit_exec(value, "dvh")
        || float_before_unit_exec(value, "cm")
        || float_before_unit_exec(value, "mm")
        || float_before_unit_exec(value, "in")
        || float_before_unit_exec(value, "pt")
        || float_before_unit_exec(value, "pc")
}

} // verus!
