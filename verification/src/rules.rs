//! The per-class rewrites of the Tailwind lint rules: deprecated utilities, logical properties,
//! marker classes and shorthand patterns.

use vstd::prelude::*;
use crate::classes::{TailwindCandidate, candidate_layout};
use crate::text::{is_prefix, str_eq, strip_prefix, strip_suffix};

verus! {

/// How a deprecated utility is handled: renamed, or removed without a replacement.
pub enum DeprecatedClass {
    Replacement(String),
    Removed,
}

/// The renamed spelling of a utility that Tailwind v4 renamed outright.
pub open spec fn exact_deprecated(base: Seq<char>) -> Option<Seq<char>> {
    if base == "shadow"@ {
        Some("shadow-sm"@)
    } else if base == "inset-shadow"@ {
        Some("inset-shadow-sm"@)
    } else if base == "drop-shadow"@ {
        Some("drop-shadow-sm"@)
    } else if base == "blur"@ {
        Some("blur-sm"@)
    } else if base == "backdrop-blur"@ {
        Some("backdrop-blur-sm"@)
    } else if base == "rounded"@ {
        Some("rounded-sm"@)
    } else if base == "flex-shrink"@ {
        Some("shrink"@)
    } else if base == "flex-grow"@ {
        Some("grow"@)
    } else if base == "overflow-ellipsis"@ {
        Some("text-ellipsis"@)
    } else if base == "decoration-slice"@ {
        Some("box-decoration-slice"@)
    } else if base == "decoration-clone"@ {
        Some("box-decoration-clone"@)
    } else if base == "bg-left-top"@ {
        Some("bg-top-left"@)
    } else if base == "bg-left-bottom"@ {
        Some("bg-bottom-left"@)
    } else if base == "bg-right-top"@ {
        Some("bg-top-right"@)
    } else if base == "bg-right-bottom"@ {
        Some("bg-bottom-right"@)
    } else if base == "object-left-top"@ {
        Some("object-top-left"@)
    } else if base == "object-left-bottom"@ {
        Some("object-bottom-left"@)
    } else if base == "object-right-top"@ {
        Some("object-top-right"@)
    } else if base == "object-right-bottom"@ {
        Some("object-bottom-right"@)
    } else {
        None
    }
}

/// Whether `base` starts with one of the opacity utilities that Tailwind v4 removed.
pub open spec fn removed_opacity(base: Seq<char>) -> bool {
    is_prefix("bg-opacity-"@, base)
        || is_prefix("text-opacity-"@, base)
        || is_prefix("border-opacity-"@, base)
        || is_prefix("divide-opacity-"@, base)
        || is_prefix("ring-opacity-"@, base)
        || is_prefix("placeholder-opacity-"@, base)
}

/// What replaces a deprecated utility base, if `base` is one.
pub open spec fn spec_replacement(base: Seq<char>) -> Option<Option<Seq<char>>> {
    match exact_deprecated(base) {
        Some(exact) => Some(Some(exact)),
        None => if removed_opacity(base) {
            Some(None)
        } else if is_prefix("flex-shrink-"@, base) {
            Some(Some("shrink-"@ + base.subrange(12, base.len() as int)))
        } else if is_prefix("flex-grow-"@, base) {
            Some(Some("grow-"@ + base.subrange(10, base.len() as int)))
        } else {
            None
        },
    }
}

fn exact_deprecated_exec(base: &str) -> (r: Option<&'static str>)
    ensures
        match r {
            Some(t) => exact_deprecated(base@) == Some(t@),
            None => exact_deprecated(base@) is None,
        },
{
    if str_eq(base, "shadow") {
        Some("shadow-sm")
    } else if str_eq(base, "inset-shadow") {
        Some("inset-shadow-sm")
    } else if str_eq(base, "drop-shadow") {
        Some("drop-shadow-sm")
    } else if str_eq(base, "blur") {
        Some("blur-sm")
    } else if str_eq(base, "backdrop-blur") {
        Some("backdrop-blur-sm")
    } else if str_eq(base, "rounded") {
        Some("rounded-sm")
    } else if str_eq(base, "flex-shrink") {
        Some("shrink")
    } else if str_eq(base, "flex-grow") {
        Some("grow")
    } else if str_eq(base, "overflow-ellipsis") {
        Some("text-ellipsis")
    } else if str_eq(base, "decoration-slice") {
        Some("box-decoration-slice")
    } else if str_eq(base, "decoration-clone") {
        Some("box-decoration-clone")
    } else if str_eq(base, "bg-left-top") {
        Some("bg-top-left")
    } else if str_eq(base, "bg-left-bottom") {
        Some("bg-bottom-left")
    } else if str_eq(base, "bg-right-top") {
        Some("bg-top-right")
    } else if str_eq(base, "bg-right-bottom") {
        Some("bg-bottom-right")
    } else if str_eq(base, "object-left-top") {
        Some("object-top-left")
    } else if str_eq(base, "object-left-bottom") {
        Some("object-bottom-left")
    } else if str_eq(base, "object-right-top") {
        Some("object-top-right")
    } else if str_eq(base, "object-right-bottom") {
        Some("object-bottom-right")
    } else {
        None
    }
}

fn starts_with_removed_opacity(base: &str) -> (r: bool)
    ensures
        r == removed_opacity(base@),
{
    crate::text::starts_with(base, "bg-opacity-")
        || crate::text::starts_with(base, "text-opacity-")
        || crate::text::starts_with(base, "border-opacity-")
        || crate::text::starts_with(base, "divide-opacity-")
        || crate::text::starts_with(base, "ring-opacity-")
        || crate::text::starts_with(base, "placeholder-opacity-")
}

/// The replacement of a utility base that Tailwind v4 removed or renamed.
pub fn replacement(base: &str) -> (r: Option<DeprecatedClass>)
    ensures
        match r {
            Some(DeprecatedClass::Replacement(t)) => spec_replacement(base@) == Some(Some(t@)),
            Some(DeprecatedClass::Removed) => spec_replacement(base@) == Some(None::<Seq<char>>),
            None => spec_replacement(base@) is None,
        },
{
    if let Some(exact) = exact_deprecated_exec(base) {
        return Some(DeprecatedClass::Replacement(exact.to_owned()));
    }
    if starts_with_removed_opacity(base) {
        return Some(DeprecatedClass::Removed);
    }
    proof {
        reveal_strlit("flex-shrink-");
        reveal_strlit("flex-grow-");
    }
    if let Some(value) = strip_prefix(base, "flex-shrink-") {
        let mut out = "shrink-".to_owned();
        crate::text::push_str(&mut out, value);
        assert(base@.subrange(12, base@.len() as int) =~= value@);
        return Some(DeprecatedClass::Replacement(out));
    }
    if let Some(value) = strip_prefix(base, "flex-grow-") {
        let mut out = "grow-".to_owned();
        crate::text::push_str(&mut out, value);
        assert(base@.subrange(10, base@.len() as int) =~= value@);
        return Some(DeprecatedClass::Replacement(out));
    }
    None
}

/// The logical spelling of a physical utility base that has an exact counterpart.
pub open spec fn exact_logical(base: Seq<char>) -> Option<Seq<char>> {
    if base == "border-l"@ {
        Some("border-s"@)
    } else if base == "border-r"@ {
        Some("border-e"@)
    } else if base == "border-t"@ {
        Some("border-bs"@)
    } else if base == "border-b"@ {
        Some("border-be"@)
    } else if base == "rounded-l"@ {
        Some("rounded-s"@)
    } else if base == "rounded-r"@ {
        Some("rounded-e"@)
    } else if base == "rounded-tl"@ {
        Some("rounded-ss"@)
    } else if base == "rounded-tr"@ {
        Some("rounded-se"@)
    } else if base == "rounded-br"@ {
        Some("rounded-ee"@)
    } else if base == "rounded-bl"@ {
        Some("rounded-es"@)
    } else if base == "text-left"@ {
        Some("text-start"@)
    } else if base == "text-right"@ {
        Some("text-end"@)
    } else if base == "float-left"@ {
        Some("float-start"@)
    } else if base == "float-right"@ {
        Some("float-end"@)
    } else if base == "clear-left"@ {
        Some("clear-start"@)
    } else if base == "clear-right"@ {
        Some("clear-end"@)
    } else {
        None
    }
}

/// The physical prefixes with their logical counterparts, in the order they are tried.
pub open spec fn logical_prefixes() -> Seq<(Seq<char>, Seq<char>)> {
    seq![
        ("scroll-ml-"@, "scroll-ms-"@),
        ("scroll-mr-"@, "scroll-me-"@),
        ("scroll-pl-"@, "scroll-ps-"@),
        ("scroll-pr-"@, "scroll-pe-"@),
        ("scroll-mt-"@, "scroll-mbs-"@),
        ("scroll-mb-"@, "scroll-mbe-"@),
        ("scroll-pt-"@, "scroll-pbs-"@),
        ("scroll-pb-"@, "scroll-pbe-"@),
        ("border-l-"@, "border-s-"@),
        ("border-r-"@, "border-e-"@),
        ("border-t-"@, "border-bs-"@),
        ("border-b-"@, "border-be-"@),
        ("rounded-tl-"@, "rounded-ss-"@),
        ("rounded-tr-"@, "rounded-se-"@),
        ("rounded-br-"@, "rounded-ee-"@),
        ("rounded-bl-"@, "rounded-es-"@),
        ("rounded-l-"@, "rounded-s-"@),
        ("rounded-r-"@, "rounded-e-"@),
        ("min-h-"@, "min-block-"@),
        ("min-w-"@, "min-inline-"@),
        ("max-h-"@, "max-block-"@),
        ("max-w-"@, "max-inline-"@),
        ("pl-"@, "ps-"@),
        ("pr-"@, "pe-"@),
        ("pt-"@, "pbs-"@),
        ("pb-"@, "pbe-"@),
        ("ml-"@, "ms-"@),
        ("mr-"@, "me-"@),
        ("mt-"@, "mbs-"@),
        ("mb-"@, "mbe-"@),
        ("left-"@, "inset-s-"@),
        ("right-"@, "inset-e-"@),
        ("top-"@, "inset-bs-"@),
        ("bottom-"@, "inset-be-"@),
        ("h-"@, "block-"@),
        ("w-"@, "inline-"@)
    ]
}

/// The first prefix pair, from `k` on, whose physical prefix starts `base`.
pub open spec fn first_logical_prefix(base: Seq<char>, k: int) -> Option<(Seq<char>, Seq<char>)>
    decreases logical_prefixes().len() - k,
{
    if k < 0 || k >= logical_prefixes().len() {
        None
    } else if is_prefix(logical_prefixes()[k].0, base) {
        Some(logical_prefixes()[k])
    } else {
        first_logical_prefix(base, k + 1)
    }
}

/// The logical utility bases that replace a physical one: an exact counterpart, a replaced
/// prefix, or for `size-*` the block and inline sizes.
pub open spec fn spec_logical_bases(base: Seq<char>) -> Option<Seq<Seq<char>>> {
    match exact_logical(base) {
        Some(exact) => Some(seq![exact]),
        None => match first_logical_prefix(base, 0) {
            Some((from, to)) => Some(seq![to + base.subrange(from.len() as int, base.len() as int)]),
            None => if is_prefix("size-"@, base) {
                let value = base.subrange(5, base.len() as int);
                Some(seq!["block-"@ + value, "inline-"@ + value])
            } else {
                None
            },
        },
    }
}

fn exact_logical_exec(base: &str) -> (r: Option<&'static str>)
    ensures
        match r {
            Some(t) => exact_logical(base@) == Some(t@),
            None => exact_logical(base@) is None,
        },
{
    if str_eq(base, "border-l") {
        Some("border-s")
    } else if str_eq(base, "border-r") {
        Some("border-e")
    } else if str_eq(base, "border-t") {
        Some("border-bs")
    } else if str_eq(base, "border-b") {
        Some("border-be")
    } else if str_eq(base, "rounded-l") {
        Some("rounded-s")
    } else if str_eq(base, "rounded-r") {
        Some("rounded-e")
    } else if str_eq(base, "rounded-tl") {
        Some("rounded-ss")
    } else if str_eq(base, "rounded-tr") {
        Some("rounded-se")
    } else if str_eq(base, "rounded-br") {
        Some("rounded-ee")
    } else if str_eq(base, "rounded-bl") {
        Some("rounded-es")
    } else if str_eq(base, "text-left") {
        Some("text-start")
    } else if str_eq(base, "text-right") {
        Some("text-end")
    } else if str_eq(base, "float-left") {
        Some("float-start")
    } else if str_eq(base, "float-right") {
        Some("float-end")
    } else if str_eq(base, "clear-left") {
        Some("clear-start")
    } else if str_eq(base, "clear-right") {
        Some("clear-end")
    } else {
        None
    }
}

fn logical_prefix_table() -> (t: Vec<(&'static str, &'static str)>)
    ensures
        t@.len() == logical_prefixes().len(),
        forall|k: int| 0 <= k < t@.len() ==> (#[trigger] t@[k]).0@ == logical_prefixes()[k].0 && t@[k].1@ == logical_prefixes()[k].1,
{
    let t = vec![
        ("scroll-ml-", "scroll-ms-"),
        ("scroll-mr-", "scroll-me-"),
        ("scroll-pl-", "scroll-ps-"),
        ("scroll-pr-", "scroll-pe-"),
        ("scroll-mt-", "scroll-mbs-"),
        ("scroll-mb-", "scroll-mbe-"),
        ("scroll-pt-", "scroll-pbs-"),
        ("scroll-pb-", "scroll-pbe-"),
        ("border-l-", "border-s-"),
        ("border-r-", "border-e-"),
        ("border-t-", "border-bs-"),
        ("border-b-", "border-be-"),
        ("rounded-tl-", "rounded-ss-"),
        ("rounded-tr-", "rounded-se-"),
        ("rounded-br-", "rounded-ee-"),
        ("rounded-bl-", "rounded-es-"),
        ("rounded-l-", "rounded-s-"),
        ("rounded-r-", "rounded-e-"),
        ("min-h-", "min-block-"),
        ("min-w-", "min-inline-"),
        ("max-h-", "max-block-"),
        ("max-w-", "max-inline-"),
        ("pl-", "ps-"),
        ("pr-", "pe-"),
        ("pt-", "pbs-"),
        ("pb-", "pbe-"),
        ("ml-", "ms-"),
        ("mr-", "me-"),
        ("mt-", "mbs-"),
        ("mb-", "mbe-"),
        ("left-", "inset-s-"),
        ("right-", "inset-e-"),
        ("top-", "inset-bs-"),
        ("bottom-", "inset-be-"),
        ("h-", "block-"),
        ("w-", "inline-")
    ];
    assert(t@.len() == logical_prefixes().len());
    t
}

fn string_concat(a: &str, b: &str) -> (r: String)
    ensures
        r@ == a@ + b@,
{
    let mut out = a.to_owned();
    crate::text::push_str(&mut out, b);
    out
}

/// The logical replacements of a physical utility base.
pub fn logical_bases(base: &str) -> (r: Option<Vec<String>>)
    ensures
        match r {
            Some(v) => spec_logical_bases(base@) == Some(v@.map_values(|t: String| t@)),
            None => spec_logical_bases(base@) is None,
        },
{
    if let Some(exact) = exact_logical_exec(base) {
        let v = vec![exact.to_owned()];
        assert(v@.map_values(|t: String| t@) =~= seq![exact@]);
        return Some(v);
    }
    let table = logical_prefix_table();
    let mut k: usize = 0;
    while k < table.len()
        invariant
            table@.len() == logical_prefixes().len(),
            forall|j: int| 0 <= j < table@.len() ==> (#[trigger] table@[j]).0@ == logical_prefixes()[j].0 && table@[j].1@ == logical_prefixes()[j].1,
            k <= table@.len(),
            exact_logical(base@) is None,
            first_logical_prefix(base@, 0) == first_logical_prefix(base@, k as int),
        decreases table.len() - k,
    {
        let (from, to) = table[k];
        if let Some(value) = strip_prefix(base, from) {
            let v = vec![string_concat(to, value)];
            assert(base@.subrange(from@.len() as int, base@.len() as int) =~= value@);
            assert(v@.map_values(|t: String| t@) =~= seq![to@ + value@]);
            return Some(v);
        }
        k = k + 1;
    }
    proof {
        reveal_strlit("size-");
    }
    if let Some(value) = strip_prefix(base, "size-") {
        let v = vec![string_concat("block-", value), string_concat("inline-", value)];
        assert(base@.subrange(5, base@.len() as int) =~= value@);
        assert(v@.map_values(|t: String| t@) =~= seq!["block-"@ + value@, "inline-"@ + value@]);
        return Some(v);
    }
    None
}

/// What a shorthand pattern captures from `base`: for `prefix*`, the rest of `base` after the
/// prefix; for any other pattern, the empty string when `base` equals it.
pub open spec fn spec_match_pattern(base: Seq<char>, pattern: Seq<char>) -> Option<Seq<char>> {
    if pattern.len() > 0 && pattern.last() == '*' {
        let prefix = pattern.drop_last();
        if is_prefix(prefix, base) {
            Some(base.subrange(prefix.len() as int, base.len() as int))
        } else {
            None
        }
    } else if base == pattern {
        Some(Seq::empty())
    } else {
        None
    }
}

pub fn match_pattern<'a>(base: &'a str, pattern: &str) -> (r: Option<&'a str>)
    ensures
        match r {
            Some(t) => spec_match_pattern(base@, pattern@) == Some(t@),
            None => spec_match_pattern(base@, pattern@) is None,
        },
{
    proof {
        reveal_strlit("*");
        reveal_strlit("");
        assert("*"@ =~= seq!['*']);
    }
    match strip_suffix(pattern, "*") {
        Some(prefix) => {
            assert(pattern@.drop_last() =~= prefix@);
            match strip_prefix(base, prefix) {
                Some(rest) => {
                    assert(base@.subrange(prefix@.len() as int, base@.len() as int) =~= rest@);
                    Some(rest)
                },
                None => None,
            }
        },
        None => {
            proof {
                if pattern@.len() > 0 && pattern@.last() == '*' {
                    assert(pattern@.subrange(pattern@.len() - 1, pattern@.len() as int) =~= seq!['*']);
                }
            }
            if str_eq(base, pattern) {
                assert(""@ =~= Seq::<char>::empty());
                Some("")
            } else {
                None
            }
        },
    }
}

/// Whether a class is a `group` or `peer` marker, which Tailwind knows without a utility.
pub open spec fn spec_is_marker_base(base: Seq<char>) -> bool {
    base == "group"@ || base == "peer"@ || is_prefix("group/"@, base) || is_prefix("peer/"@, base)
}

pub fn is_marker_class(class_name: &str) -> (r: bool)
    ensures
        r == spec_is_marker_base({
            let layout = candidate_layout(class_name@);
            class_name@.subrange(layout.base_start, layout.base_end)
        }),
{
    let base = TailwindCandidate::parse(class_name).base;
    str_eq(base, "group") || str_eq(base, "peer") || crate::text::starts_with(base, "group/")
        || crate::text::starts_with(base, "peer/")
}

} // verus!
