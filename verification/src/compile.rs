//! What a class compiles to: the CSS properties a utility sets, and the checks on its value and
//! modifier that decide whether Tailwind knows it.

use vstd::prelude::*;
use std::cmp::Ordering;
use crate::text::{str_eq, starts_with, strip_prefix, is_prefix, is_suffix};
use crate::numbers::{parse_unsigned_spec, parses_as_u16, parses_as_float, spec_parses_as_float, spec_is_canonical_u64, is_canonical_u64};
use crate::canonical::{without_prefix, spec_split_once, split_once, float_before_unit, concat2, concat3};
use crate::design_system::DesignSystem;
use crate::collections::text_map_contents;
use crate::candidate::{Modifier, ModifierModel, opt_modifier, Candidate, CandidateKind, CandidateKindModel, CandidateModel, Variant, VariantKind, VariantModel, candidate_model, variant_models, spec_print_variant};
use crate::candidate::{ArbitraryValue, CandidateValue, CandidateValueModel, opt_text};
use crate::text::push_str;

verus! {

/// `root` without a leading `-`.
pub open spec fn positive_root(root: Seq<char>) -> Seq<char> {
    without_prefix(root, "-"@)
}

pub fn strip_negative(root: &str) -> (r: &str)
    ensures
        r@ == positive_root(root@),
{
    match strip_prefix(root, "-") {
        Some(rest) => {
            assert(root@.subrange("-"@.len() as int, root@.len() as int) =~= rest@);
            rest
        },
        None => root,
    }
}

/// Whether a functional root takes spacing-scale values.
pub open spec fn spec_is_spacing_root(root: Seq<char>) -> bool {
    root == "inset"@
        || root == "inset-x"@
        || root == "inset-y"@
        || root == "inset-s"@
        || root == "inset-e"@
        || root == "inset-bs"@
        || root == "inset-be"@
        || root == "top"@
        || root == "right"@
        || root == "bottom"@
        || root == "left"@
        || root == "start"@
        || root == "end"@
        || root == "m"@
        || root == "mx"@
        || root == "my"@
        || root == "ms"@
        || root == "me"@
        || root == "mbs"@
        || root == "mbe"@
        || root == "mt"@
        || root == "mr"@
        || root == "mb"@
        || root == "ml"@
        || root == "size"@
        || root == "w"@
        || root == "min-w"@
        || root == "max-w"@
        || root == "h"@
        || root == "min-h"@
        || root == "max-h"@
        || root == "inline"@
        || root == "min-inline"@
        || root == "max-inline"@
        || root == "block"@
        || root == "min-block"@
        || root == "max-block"@
        || root == "basis"@
        || root == "gap"@
        || root == "gap-x"@
        || root == "gap-y"@
        || root == "space-x"@
        || root == "space-y"@
        || root == "scroll-m"@
        || root == "scroll-mx"@
        || root == "scroll-my"@
        || root == "scroll-ms"@
        || root == "scroll-me"@
        || root == "scroll-mbs"@
        || root == "scroll-mbe"@
        || root == "scroll-mt"@
        || root == "scroll-mr"@
        || root == "scroll-mb"@
        || root == "scroll-ml"@
        || root == "scroll-p"@
        || root == "scroll-px"@
        || root == "scroll-py"@
        || root == "scroll-ps"@
        || root == "scroll-pe"@
        || root == "scroll-pbs"@
        || root == "scroll-pbe"@
        || root == "scroll-pt"@
        || root == "scroll-pr"@
        || root == "scroll-pb"@
        || root == "scroll-pl"@
        || root == "p"@
        || root == "px"@
        || root == "py"@
        || root == "ps"@
        || root == "pe"@
        || root == "pbs"@
        || root == "pbe"@
        || root == "pt"@
        || root == "pr"@
        || root == "pb"@
        || root == "pl"@
        || root == "indent"@
        || root == "leading"@
        || root == "translate"@
        || root == "translate-x"@
        || root == "translate-y"@
        || root == "translate-z"@
}

pub fn is_spacing_root(root: &str) -> (r: bool)
    ensures
        r == spec_is_spacing_root(root@),
{
    str_eq(root, "inset")
        || str_eq(root, "inset-x")
        || str_eq(root, "inset-y")
        || str_eq(root, "inset-s")
        || str_eq(root, "inset-e")
        || str_eq(root, "inset-bs")
        || str_eq(root, "inset-be")
        || str_eq(root, "top")
        || str_eq(root, "right")
        || str_eq(root, "bottom")
        || str_eq(root, "left")
        || str_eq(root, "start")
        || str_eq(root, "end")
        || str_eq(root, "m")
        || str_eq(root, "mx")
        || str_eq(root, "my")
        || str_eq(root, "ms")
        || str_eq(root, "me")
        || str_eq(root, "mbs")
        || str_eq(root, "mbe")
        || str_eq(root, "mt")
        || str_eq(root, "mr")
        || str_eq(root, "mb")
        || str_eq(root, "ml")
        || str_eq(root, "size")
        || str_eq(root, "w")
        || str_eq(root, "min-w")
        || str_eq(root, "max-w")
        || str_eq(root, "h")
        || str_eq(root, "min-h")
        || str_eq(root, "max-h")
        || str_eq(root, "inline")
        || str_eq(root, "min-inline")
        || str_eq(root, "max-inline")
        || str_eq(root, "block")
        || str_eq(root, "min-block")
        || str_eq(root, "max-block")
        || str_eq(root, "basis")
        || str_eq(root, "gap")
        || str_eq(root, "gap-x")
        || str_eq(root, "gap-y")
        || str_eq(root, "space-x")
        || str_eq(root, "space-y")
        || str_eq(root, "scroll-m")
        || str_eq(root, "scroll-mx")
        || str_eq(root, "scroll-my")
        || str_eq(root, "scroll-ms")
        || str_eq(root, "scroll-me")
        || str_eq(root, "scroll-mbs")
        || str_eq(root, "scroll-mbe")
        || str_eq(root, "scroll-mt")
        || str_eq(root, "scroll-mr")
        || str_eq(root, "scroll-mb")
        || str_eq(root, "scroll-ml")
        || str_eq(root, "scroll-p")
        || str_eq(root, "scroll-px")
        || str_eq(root, "scroll-py")
        || str_eq(root, "scroll-ps")
        || str_eq(root, "scroll-pe")
        || str_eq(root, "scroll-pbs")
        || str_eq(root, "scroll-pbe")
        || str_eq(root, "scroll-pt")
        || str_eq(root, "scroll-pr")
        || str_eq(root, "scroll-pb")
        || str_eq(root, "scroll-pl")
        || str_eq(root, "p")
        || str_eq(root, "px")
        || str_eq(root, "py")
        || str_eq(root, "ps")
        || str_eq(root, "pe")
        || str_eq(root, "pbs")
        || str_eq(root, "pbe")
        || str_eq(root, "pt")
        || str_eq(root, "pr")
        || str_eq(root, "pb")
        || str_eq(root, "pl")
        || str_eq(root, "indent")
        || str_eq(root, "leading")
        || str_eq(root, "translate")
        || str_eq(root, "translate-x")
        || str_eq(root, "translate-y")
        || str_eq(root, "translate-z")
}

/// Whether a functional root takes bare non-negative integers.
pub open spec fn spec_is_positive_integer_root(root: Seq<char>) -> bool {
    root == "z"@
        || root == "order"@
        || root == "col"@
        || root == "col-span"@
        || root == "col-start"@
        || root == "col-end"@
        || root == "row"@
        || root == "row-span"@
        || root == "row-start"@
        || root == "row-end"@
        || root == "line-clamp"@
        || root == "tab"@
}

pub fn is_positive_integer_root(root: &str) -> (r: bool)
    ensures
        r == spec_is_positive_integer_root(root@),
{
    str_eq(root, "z")
        || str_eq(root, "order")
        || str_eq(root, "col")
        || str_eq(root, "col-span")
        || str_eq(root, "col-start")
        || str_eq(root, "col-end")
        || str_eq(root, "row")
        || str_eq(root, "row-span")
        || str_eq(root, "row-start")
        || str_eq(root, "row-end")
        || str_eq(root, "line-clamp")
        || str_eq(root, "tab")
}

/// Whether a filter or transform root takes bare integers.
pub open spec fn spec_is_integer_bare_value_root(root: Seq<char>) -> bool {
    root == "brightness"@
        || root == "backdrop-brightness"@
        || root == "contrast"@
        || root == "backdrop-contrast"@
        || root == "grayscale"@
        || root == "backdrop-grayscale"@
        || root == "hue-rotate"@
        || root == "backdrop-hue-rotate"@
        || root == "invert"@
        || root == "backdrop-invert"@
        || root == "saturate"@
        || root == "backdrop-saturate"@
        || root == "sepia"@
        || root == "backdrop-sepia"@
        || root == "rotate"@
        || root == "rotate-x"@
        || root == "rotate-y"@
        || root == "rotate-z"@
        || root == "scale"@
        || root == "scale-x"@
        || root == "scale-y"@
        || root == "scale-z"@
        || root == "skew"@
        || root == "skew-x"@
        || root == "skew-y"@
        || root == "grow"@
        || root == "shrink"@
        || root == "delay"@
        || root == "duration"@
}

pub fn is_integer_bare_value_root(root: &str) -> (r: bool)
    ensures
        r == spec_is_integer_bare_value_root(root@),
{
    str_eq(root, "brightness")
        || str_eq(root, "backdrop-brightness")
        || str_eq(root, "contrast")
        || str_eq(root, "backdrop-contrast")
        || str_eq(root, "grayscale")
        || str_eq(root, "backdrop-grayscale")
        || str_eq(root, "hue-rotate")
        || str_eq(root, "backdrop-hue-rotate")
        || str_eq(root, "invert")
        || str_eq(root, "backdrop-invert")
        || str_eq(root, "saturate")
        || str_eq(root, "backdrop-saturate")
        || str_eq(root, "sepia")
        || str_eq(root, "backdrop-sepia")
        || str_eq(root, "rotate")
        || str_eq(root, "rotate-x")
        || str_eq(root, "rotate-y")
        || str_eq(root, "rotate-z")
        || str_eq(root, "scale")
        || str_eq(root, "scale-x")
        || str_eq(root, "scale-y")
        || str_eq(root, "scale-z")
        || str_eq(root, "skew")
        || str_eq(root, "skew-x")
        || str_eq(root, "skew-y")
        || str_eq(root, "grow")
        || str_eq(root, "shrink")
        || str_eq(root, "delay")
        || str_eq(root, "duration")
}

/// Whether a functional root is valid without a value.
pub open spec fn spec_has_default_value(root: Seq<char>) -> bool {
    root == "border"@
        || root == "border-x"@
        || root == "border-y"@
        || root == "border-s"@
        || root == "border-e"@
        || root == "border-t"@
        || root == "border-r"@
        || root == "border-b"@
        || root == "border-l"@
        || root == "rounded"@
        || root == "shadow"@
        || root == "inset-shadow"@
        || root == "ring"@
        || root == "outline"@
        || root == "blur"@
        || root == "brightness"@
        || root == "contrast"@
        || root == "grayscale"@
        || root == "hue-rotate"@
        || root == "invert"@
        || root == "saturate"@
        || root == "sepia"@
        || root == "grow"@
        || root == "shrink"@
        || root == "transition"@
        || root == "translate"@
        || root == "rotate"@
        || root == "scale"@
}

pub fn has_default_value(root: &str) -> (r: bool)
    ensures
        r == spec_has_default_value(root@),
{
    str_eq(root, "border")
        || str_eq(root, "border-x")
        || str_eq(root, "border-y")
        || str_eq(root, "border-s")
        || str_eq(root, "border-e")
        || str_eq(root, "border-t")
        || str_eq(root, "border-r")
        || str_eq(root, "border-b")
        || str_eq(root, "border-l")
        || str_eq(root, "rounded")
        || str_eq(root, "shadow")
        || str_eq(root, "inset-shadow")
        || str_eq(root, "ring")
        || str_eq(root, "outline")
        || str_eq(root, "blur")
        || str_eq(root, "brightness")
        || str_eq(root, "contrast")
        || str_eq(root, "grayscale")
        || str_eq(root, "hue-rotate")
        || str_eq(root, "invert")
        || str_eq(root, "saturate")
        || str_eq(root, "sepia")
        || str_eq(root, "grow")
        || str_eq(root, "shrink")
        || str_eq(root, "transition")
        || str_eq(root, "translate")
        || str_eq(root, "rotate")
        || str_eq(root, "scale")
}

/// Whether a functional root takes theme colors.
pub open spec fn spec_is_color_root(root: Seq<char>) -> bool {
    root == "accent"@
        || root == "bg"@
        || root == "border"@
        || root == "border-x"@
        || root == "border-y"@
        || root == "border-s"@
        || root == "border-e"@
        || root == "border-t"@
        || root == "border-r"@
        || root == "border-b"@
        || root == "border-l"@
        || root == "caret"@
        || root == "decoration"@
        || root == "divide"@
        || root == "fill"@
        || root == "from"@
        || root == "placeholder"@
        || root == "ring"@
        || root == "ring-offset"@
        || root == "stroke"@
        || root == "to"@
        || root == "via"@
}

pub fn is_color_root(root: &str) -> (r: bool)
    ensures
        r == spec_is_color_root(root@),
{
    str_eq(root, "accent")
        || str_eq(root, "bg")
        || str_eq(root, "border")
        || str_eq(root, "border-x")
        || str_eq(root, "border-y")
        || str_eq(root, "border-s")
        || str_eq(root, "border-e")
        || str_eq(root, "border-t")
        || str_eq(root, "border-r")
        || str_eq(root, "border-b")
        || str_eq(root, "border-l")
        || str_eq(root, "caret")
        || str_eq(root, "decoration")
        || str_eq(root, "divide")
        || str_eq(root, "fill")
        || str_eq(root, "from")
        || str_eq(root, "placeholder")
        || str_eq(root, "ring")
        || str_eq(root, "ring-offset")
        || str_eq(root, "stroke")
        || str_eq(root, "to")
        || str_eq(root, "via")
}

/// Whether a functional root (possibly negative) takes a fraction such as `1/2`.
pub open spec fn spec_supports_fraction(root: Seq<char>) -> bool {
    let root = positive_root(root);
    root == "inset"@
        || root == "inset-x"@
        || root == "inset-y"@
        || root == "inset-s"@
        || root == "inset-e"@
        || root == "inset-bs"@
        || root == "inset-be"@
        || root == "top"@
        || root == "right"@
        || root == "bottom"@
        || root == "left"@
        || root == "start"@
        || root == "end"@
        || root == "size"@
        || root == "w"@
        || root == "min-w"@
        || root == "max-w"@
        || root == "h"@
        || root == "min-h"@
        || root == "max-h"@
        || root == "basis"@
        || root == "translate"@
        || root == "translate-x"@
        || root == "translate-y"@
        || root == "flex"@
        || root == "aspect"@
}

pub fn supports_fraction(root: &str) -> (r: bool)
    ensures
        r == spec_supports_fraction(root@),
{
    let root = strip_negative(root);
    str_eq(root, "inset")
        || str_eq(root, "inset-x")
        || str_eq(root, "inset-y")
        || str_eq(root, "inset-s")
        || str_eq(root, "inset-e")
        || str_eq(root, "inset-bs")
        || str_eq(root, "inset-be")
        || str_eq(root, "top")
        || str_eq(root, "right")
        || str_eq(root, "bottom")
        || str_eq(root, "left")
        || str_eq(root, "start")
        || str_eq(root, "end")
        || str_eq(root, "size")
        || str_eq(root, "w")
        || str_eq(root, "min-w")
        || str_eq(root, "max-w")
        || str_eq(root, "h")
        || str_eq(root, "min-h")
        || str_eq(root, "max-h")
        || str_eq(root, "basis")
        || str_eq(root, "translate")
        || str_eq(root, "translate-x")
        || str_eq(root, "translate-y")
        || str_eq(root, "flex")
        || str_eq(root, "aspect")
}

/// Whether a functional root takes either a color or a width.
pub open spec fn spec_is_color_or_width_root(root: Seq<char>) -> bool {
    root == "border"@ || is_prefix("border-"@, root)
        || root == "divide"@
        || root == "divide-x"@
        || root == "divide-y"@
        || root == "ring"@
        || root == "ring-offset"@
        || root == "outline"@
        || root == "decoration"@
        || root == "stroke"@
}

pub fn is_color_or_width_root(root: &str) -> (r: bool)
    ensures
        r == spec_is_color_or_width_root(root@),
{
    str_eq(root, "border") || starts_with(root, "border-")
        || str_eq(root, "divide")
        || str_eq(root, "divide-x")
        || str_eq(root, "divide-y")
        || str_eq(root, "ring")
        || str_eq(root, "ring-offset")
        || str_eq(root, "outline")
        || str_eq(root, "decoration")
        || str_eq(root, "stroke")
}

/// The keyword values a spacing root takes besides the spacing scale.
pub open spec fn spec_is_builtin_spacing_value(root: Seq<char>, value: Seq<char>) -> bool {
    if (root == "inset"@ || root == "inset-x"@ || root == "inset-y"@ || root == "inset-s"@ || root == "inset-e"@ || root == "inset-bs"@ || root == "inset-be"@ || root == "top"@ || root == "right"@ || root == "bottom"@ || root == "left"@ || root == "start"@ || root == "end"@) {
        (value == "auto"@ || value == "full"@)
    } else if (root == "m"@ || root == "mx"@ || root == "my"@ || root == "ms"@ || root == "me"@ || root == "mbs"@ || root == "mbe"@ || root == "mt"@ || root == "mr"@ || root == "mb"@ || root == "ml"@) {
        (value == "auto"@)
    } else if (root == "size"@) {
        (value == "auto"@ || value == "full"@ || value == "svw"@ || value == "lvw"@ || value == "dvw"@ || value == "svh"@ || value == "lvh"@ || value == "dvh"@ || value == "min"@ || value == "max"@ || value == "fit"@)
    } else if (root == "w"@ || root == "min-w"@ || root == "max-w"@ || root == "h"@ || root == "min-h"@ || root == "max-h"@) {
        (value == "auto"@ || value == "full"@ || value == "svw"@ || value == "lvw"@ || value == "dvw"@ || value == "svh"@ || value == "lvh"@ || value == "dvh"@ || value == "min"@ || value == "max"@ || value == "fit"@ || value == "screen"@ || value == "lh"@ || value == "none"@)
    } else if (root == "inline"@ || root == "min-inline"@ || root == "max-inline"@) {
        (value == "auto"@ || value == "full"@ || value == "svw"@ || value == "lvw"@ || value == "dvw"@ || value == "min"@ || value == "max"@ || value == "fit"@ || value == "screen"@)
    } else if (root == "block"@ || root == "min-block"@ || root == "max-block"@) {
        (value == "auto"@ || value == "full"@ || value == "svh"@ || value == "lvh"@ || value == "dvh"@ || value == "min"@ || value == "max"@ || value == "fit"@ || value == "screen"@ || value == "lh"@)
    } else if (root == "basis"@ || root == "translate"@ || root == "translate-x"@ || root == "translate-y"@) {
        (value == "full"@)
    } else {
        false
    }
}

pub fn is_builtin_spacing_value(root: &str, value: &str) -> (r: bool)
    ensures
        r == spec_is_builtin_spacing_value(root@, value@),
{
    if (str_eq(root, "inset") || str_eq(root, "inset-x") || str_eq(root, "inset-y") || str_eq(root, "inset-s") || str_eq(root, "inset-e") || str_eq(root, "inset-bs") || str_eq(root, "inset-be") || str_eq(root, "top") || str_eq(root, "right") || str_eq(root, "bottom") || str_eq(root, "left") || str_eq(root, "start") || str_eq(root, "end")) {
        (str_eq(value, "auto") || str_eq(value, "full"))
    } else if (str_eq(root, "m") || str_eq(root, "mx") || str_eq(root, "my") || str_eq(root, "ms") || str_eq(root, "me") || str_eq(root, "mbs") || str_eq(root, "mbe") || str_eq(root, "mt") || str_eq(root, "mr") || str_eq(root, "mb") || str_eq(root, "ml")) {
        (str_eq(value, "auto"))
    } else if (str_eq(root, "size")) {
        (str_eq(value, "auto") || str_eq(value, "full") || str_eq(value, "svw") || str_eq(value, "lvw") || str_eq(value, "dvw") || str_eq(value, "svh") || str_eq(value, "lvh") || str_eq(value, "dvh") || str_eq(value, "min") || str_eq(value, "max") || str_eq(value, "fit"))
    } else if (str_eq(root, "w") || str_eq(root, "min-w") || str_eq(root, "max-w") || str_eq(root, "h") || str_eq(root, "min-h") || str_eq(root, "max-h")) {
        (str_eq(value, "auto") || str_eq(value, "full") || str_eq(value, "svw") || str_eq(value, "lvw") || str_eq(value, "dvw") || str_eq(value, "svh") || str_eq(value, "lvh") || str_eq(value, "dvh") || str_eq(value, "min") || str_eq(value, "max") || str_eq(value, "fit") || str_eq(value, "screen") || str_eq(value, "lh") || str_eq(value, "none"))
    } else if (str_eq(root, "inline") || str_eq(root, "min-inline") || str_eq(root, "max-inline")) {
        (str_eq(value, "auto") || str_eq(value, "full") || str_eq(value, "svw") || str_eq(value, "lvw") || str_eq(value, "dvw") || str_eq(value, "min") || str_eq(value, "max") || str_eq(value, "fit") || str_eq(value, "screen"))
    } else if (str_eq(root, "block") || str_eq(root, "min-block") || str_eq(root, "max-block")) {
        (str_eq(value, "auto") || str_eq(value, "full") || str_eq(value, "svh") || str_eq(value, "lvh") || str_eq(value, "dvh") || str_eq(value, "min") || str_eq(value, "max") || str_eq(value, "fit") || str_eq(value, "screen") || str_eq(value, "lh"))
    } else if (str_eq(root, "basis") || str_eq(root, "translate") || str_eq(root, "translate-x") || str_eq(root, "translate-y")) {
        (str_eq(value, "full"))
    } else {
        false
    }
}

/// The keyword values of functional roots outside the theme.
pub open spec fn spec_is_builtin_functional_value(root: Seq<char>, value: Seq<char>) -> bool {
    if (root == "auto-cols"@ || root == "auto-rows"@) {
        (value == "auto"@ || value == "min"@ || value == "max"@ || value == "fr"@)
    } else if (root == "list"@) {
        (value == "none"@ || value == "disc"@ || value == "decimal"@)
    } else if (root == "origin"@) {
        (value == "center"@ || value == "top"@ || value == "top-right"@ || value == "right"@ || value == "bottom-right"@ || value == "bottom"@ || value == "bottom-left"@ || value == "left"@ || value == "top-left"@)
    } else if (root == "transition"@) {
        (value == "none"@ || value == "all"@ || value == "colors"@ || value == "opacity"@ || value == "shadow"@ || value == "transform"@)
    } else if root == "bg-linear"@ {
        (value == "to-t"@ || value == "to-tr"@ || value == "to-r"@ || value == "to-br"@ || value == "to-b"@ || value == "to-bl"@ || value == "to-l"@ || value == "to-tl"@) || parse_unsigned_spec(value, u16::MAX as int) is Some
    } else {
        false
    }
}

pub fn is_builtin_functional_value(root: &str, value: &str) -> (r: bool)
    ensures
        r == spec_is_builtin_functional_value(root@, value@),
{
    if (str_eq(root, "auto-cols") || str_eq(root, "auto-rows")) {
        (str_eq(value, "auto") || str_eq(value, "min") || str_eq(value, "max") || str_eq(value, "fr"))
    } else if (str_eq(root, "list")) {
        (str_eq(value, "none") || str_eq(value, "disc") || str_eq(value, "decimal"))
    } else if (str_eq(root, "origin")) {
        (str_eq(value, "center") || str_eq(value, "top") || str_eq(value, "top-right") || str_eq(value, "right") || str_eq(value, "bottom-right") || str_eq(value, "bottom") || str_eq(value, "bottom-left") || str_eq(value, "left") || str_eq(value, "top-left"))
    } else if (str_eq(root, "transition")) {
        (str_eq(value, "none") || str_eq(value, "all") || str_eq(value, "colors") || str_eq(value, "opacity") || str_eq(value, "shadow") || str_eq(value, "transform"))
    } else if str_eq(root, "bg-linear") {
        (str_eq(value, "to-t") || str_eq(value, "to-tr") || str_eq(value, "to-r") || str_eq(value, "to-br") || str_eq(value, "to-b") || str_eq(value, "to-bl") || str_eq(value, "to-l") || str_eq(value, "to-tl")) || parses_as_u16(value)
    } else {
        false
    }
}

/// Whether a value is a number or a keyword that any functional root accepts.
pub open spec fn spec_is_builtin_named_value(value: Seq<char>) -> bool {
    spec_parses_as_float(value) || (value == "auto"@ || value == "none"@ || value == "full"@ || value == "min"@ || value == "max"@ || value == "fit"@ || value == "px"@ || value == "screen"@ || value == "inherit"@ || value == "initial"@ || value == "current"@ || value == "transparent"@ || value == "normal"@ || value == "DEFAULT"@)
}

pub fn is_builtin_named_value(value: &str) -> (r: bool)
    ensures
        r == spec_is_builtin_named_value(value@),
{
    parses_as_float(value) || (str_eq(value, "auto") || str_eq(value, "none") || str_eq(value, "full") || str_eq(value, "min") || str_eq(value, "max") || str_eq(value, "fit") || str_eq(value, "px") || str_eq(value, "screen") || str_eq(value, "inherit") || str_eq(value, "initial") || str_eq(value, "current") || str_eq(value, "transparent") || str_eq(value, "normal") || str_eq(value, "DEFAULT"))
}

/// Whether `value` is a non-negative integer written as a `u64` prints.
pub open spec fn spec_is_positive_integer(value: Seq<char>) -> bool {
    spec_is_canonical_u64(value)
}

pub fn is_positive_integer(value: &str) -> (r: bool)
    ensures
        r == spec_is_positive_integer(value@),
{
    is_canonical_u64(value)
}

/// Whether `value` is a positive integer written as a `u64` prints.
pub open spec fn spec_is_strict_positive_integer(value: Seq<char>) -> bool {
    spec_is_canonical_u64(value) && value != "0"@
}

pub fn is_strict_positive_integer(value: &str) -> (r: bool)
    ensures
        r == spec_is_strict_positive_integer(value@),
{
    is_canonical_u64(value) && !str_eq(value, "0")
}

/// Whether `value` is two non-negative integers around a `/`.
pub open spec fn spec_valid_fraction(value: Seq<char>) -> bool {
    match spec_split_once(value, '/') {
        Some((left, right)) => spec_is_positive_integer(left) && spec_is_positive_integer(right),
        None => false,
    }
}

pub fn valid_fraction(value: &str) -> (r: bool)
    ensures
        r == spec_valid_fraction(value@),
{
    match split_once(value, '/') {
        Some((left, right)) => is_positive_integer(left) && is_positive_integer(right),
        None => false,
    }
}

/// Whether an arbitrary value is a color: typed as one, or a hex, `rgb()`, `hsl()` or
/// `oklch()` color.
pub open spec fn spec_value_is_arbitrary_color(data_type: Option<Seq<char>>, value: Seq<char>) -> bool {
    data_type == Some("color"@) || is_prefix("#"@, value) || is_prefix("rgb("@, value)
        || is_prefix("hsl("@, value) || is_prefix("oklch("@, value)
}

pub fn value_is_arbitrary_color(value: &ArbitraryValue) -> (r: bool)
    ensures
        r == spec_value_is_arbitrary_color(opt_text(value.data_type), value.value@),
{
    let typed = match &value.data_type {
        Some(t) => str_eq(t.as_str(), "color"),
        None => false,
    };
    let v = value.value.as_str();
    typed || starts_with(v, "#") || starts_with(v, "rgb(") || starts_with(v, "hsl(") || starts_with(v, "oklch(")
}

/// Whether `value` is a CSS length: a number with a unit, or a math function.
pub open spec fn spec_is_css_length(value: Seq<char>) -> bool {
    crate::canonical::spec_is_css_dimension(value)
        || is_prefix("calc("@, value) || is_prefix("min("@, value) || is_prefix("max("@, value)
        || is_prefix("clamp("@, value)
}

pub fn is_css_length(value: &str) -> (r: bool)
    ensures
        r == spec_is_css_length(value@),
{
    crate::canonical::is_css_dimension(value)
        || starts_with(value, "calc(") || starts_with(value, "min(") || starts_with(value, "max(")
        || starts_with(value, "clamp(")
}

/// A rule of a property table: an exact root or a root prefix, and the properties it sets.
pub struct PropertyRule {
    pub prefix: bool,
    pub key: &'static str,
    pub properties: Vec<&'static str>,
}

/// The model of a property rule.
pub type RuleModel = (bool, Seq<char>, Seq<Seq<char>>);

pub open spec fn rule_view(r: PropertyRule) -> RuleModel {
    (r.prefix, r.key@, crate::text::views(r.properties@))
}

pub open spec fn rule_views(rs: Seq<PropertyRule>) -> Seq<RuleModel> {
    rs.map_values(|r: PropertyRule| rule_view(r))
}

pub open spec fn rule_matches(rule: RuleModel, root: Seq<char>) -> bool {
    if rule.0 { is_prefix(rule.1, root) } else { root == rule.1 }
}

/// The properties of the first rule from `i` on that matches `root`.
pub open spec fn first_rule_from(rules: Seq<RuleModel>, root: Seq<char>, i: int) -> Option<Seq<Seq<char>>>
    decreases rules.len() - i,
{
    if i < 0 || i >= rules.len() {
        None
    } else if rule_matches(rules[i], root) {
        Some(rules[i].2)
    } else {
        first_rule_from(rules, root, i + 1)
    }
}

pub open spec fn first_rule(rules: Seq<RuleModel>, root: Seq<char>) -> Option<Seq<Seq<char>>> {
    first_rule_from(rules, root, 0)
}

pub proof fn lemma_first_rule_shift(a: Seq<RuleModel>, b: Seq<RuleModel>, root: Seq<char>, i: int)
    requires
        0 <= i <= b.len(),
    ensures
        first_rule_from(a + b, root, a.len() + i) == first_rule_from(b, root, i),
    decreases b.len() - i,
{
    if i < b.len() {
        assert((a + b)[a.len() + i] == b[i]);
        lemma_first_rule_shift(a, b, root, i + 1);
    }
}

pub proof fn lemma_first_rule_concat(a: Seq<RuleModel>, b: Seq<RuleModel>, root: Seq<char>, i: int)
    requires
        0 <= i <= a.len(),
    ensures
        first_rule_from(a + b, root, i) == match first_rule_from(a, root, i) {
            Some(p) => Some(p),
            None => first_rule(b, root),
        },
    decreases a.len() - i,
{
    if i < a.len() {
        assert((a + b)[i] == a[i]);
        lemma_first_rule_concat(a, b, root, i + 1);
    } else {
        lemma_first_rule_shift(a, b, root, 0);
    }
}

pub open spec fn texts(v: Seq<String>) -> Seq<Seq<char>> {
    v.map_values(|t: String| t@)
}

fn owned_texts(v: &Vec<&'static str>) -> (r: Vec<String>)
    ensures
        texts(r@) == crate::text::views(v@),
{
    let mut r: Vec<String> = Vec::new();
    let mut i: usize = 0;
    while i < v.len()
        invariant
            i <= v@.len(),
            texts(r@) == crate::text::views(v@).take(i as int),
        decreases v.len() - i,
    {
        let owned = v[i].to_owned();
        assert(owned@ == crate::text::views(v@)[i as int]);
        let ghost before = texts(r@);
        r.push(owned);
        assert(texts(r@) =~= before.push(owned@));
        assert(texts(r@) =~= crate::text::views(v@).take(i + 1));
        i = i + 1;
    }
    assert(crate::text::views(v@).take(v@.len() as int) =~= crate::text::views(v@));
    r
}

/// The properties of the first rule of `rules` that matches `root`.
pub fn lookup_rules(rules: &Vec<PropertyRule>, root: &str) -> (r: Option<Vec<String>>)
    ensures
        match r {
            Some(p) => first_rule(rule_views(rules@), root@) == Some(texts(p@)),
            None => first_rule(rule_views(rules@), root@) is None,
        },
{
    let ghost rv = rule_views(rules@);
    let mut i: usize = 0;
    while i < rules.len()
        invariant
            rv == rule_views(rules@),
            i <= rules@.len(),
            first_rule(rv, root@) == first_rule_from(rv, root@, i as int),
        decreases rules.len() - i,
    {
        let rule = &rules[i];
        let hit = if rule.prefix { starts_with(root, rule.key) } else { str_eq(root, rule.key) };
        assert(rv[i as int] == rule_view(rules@[i as int]));
        if hit {
            return Some(owned_texts(&rule.properties));
        }
        i = i + 1;
    }
    None
}

#[verifier::opaque]
pub open spec fn static_rules_0() -> Seq<RuleModel> {
    seq![
        (false, "sr-only"@, seq!["position"@, "width"@, "height"@, "padding"@, "margin"@, "overflow"@, "clip-path"@, "white-space"@, "border-width"@]),
        (false, "not-sr-only"@, seq!["position"@, "width"@, "height"@, "padding"@, "margin"@, "overflow"@, "clip-path"@, "white-space"@]),
        (false, "container"@, seq!["width"@, "max-width"@]),
        (false, "block"@, seq!["display"@]),
        (false, "inline"@, seq!["display"@]),
        (false, "inline-block"@, seq!["display"@]),
        (false, "flex"@, seq!["display"@]),
        (false, "inline-flex"@, seq!["display"@]),
        (false, "grid"@, seq!["display"@]),
        (false, "inline-grid"@, seq!["display"@]),
        (false, "hidden"@, seq!["display"@]),
        (false, "contents"@, seq!["display"@]),
        (false, "flow-root"@, seq!["display"@]),
        (false, "list-item"@, seq!["display"@]),
        (false, "table"@, seq!["display"@]),
        (false, "inline-table"@, seq!["display"@]),
        (false, "table-caption"@, seq!["display"@]),
        (false, "table-cell"@, seq!["display"@]),
        (false, "table-column"@, seq!["display"@]),
        (false, "table-column-group"@, seq!["display"@]),
        (false, "table-footer-group"@, seq!["display"@]),
        (false, "table-header-group"@, seq!["display"@]),
        (false, "table-row-group"@, seq!["display"@]),
        (false, "table-row"@, seq!["display"@]),
        (false, "static"@, seq!["position"@]),
        (false, "fixed"@, seq!["position"@]),
        (false, "absolute"@, seq!["position"@]),
        (false, "relative"@, seq!["position"@]),
        (false, "sticky"@, seq!["position"@]),
        (true, "inset-x-"@, seq!["inset-inline"@]),
        (true, "inset-y-"@, seq!["inset-block"@]),
        (true, "inset-s-"@, seq!["inset-inline-start"@]),
        (true, "inset-e-"@, seq!["inset-inline-end"@]),
        (true, "inset-bs-"@, seq!["inset-block-start"@]),
        (true, "inset-be-"@, seq!["inset-block-end"@]),
        (true, "inset-"@, seq!["inset"@]),
        (true, "top-"@, seq!["top"@]),
        (true, "right-"@, seq!["right"@]),
        (true, "bottom-"@, seq!["bottom"@]),
        (true, "left-"@, seq!["left"@]),
        (true, "start-"@, seq!["inset-inline-start"@])
    ]
}

#[verifier::spinoff_prover]
#[verifier::rlimit(80)]
fn static_table_0() -> (r: Vec<PropertyRule>)
    ensures
        rule_views(r@) == static_rules_0(),
{
    reveal(static_rules_0);
    let mut t: Vec<PropertyRule> = Vec::new();
    t.push(PropertyRule { prefix: false, key: "sr-only", properties: vec!["position", "width", "height", "padding", "margin", "overflow", "clip-path", "white-space", "border-width"] });
    t.push(PropertyRule { prefix: false, key: "not-sr-only", properties: vec!["position", "width", "height", "padding", "margin", "overflow", "clip-path", "white-space"] });
    t.push(PropertyRule { prefix: false, key: "container", properties: vec!["width", "max-width"] });
    t.push(PropertyRule { prefix: false, key: "block", properties: vec!["display"] });
    t.push(PropertyRule { prefix: false, key: "inline", properties: vec!["display"] });
    t.push(PropertyRule { prefix: false, key: "inline-block", properties: vec!["display"] });
    t.push(PropertyRule { prefix: false, key: "flex", properties: vec!["display"] });
    t.push(PropertyRule { prefix: false, key: "inline-flex", properties: vec!["display"] });
    t.push(PropertyRule { prefix: false, key: "grid", properties: vec!["display"] });
    t.push(PropertyRule { prefix: false, key: "inline-grid", properties: vec!["display"] });
    t.push(PropertyRule { prefix: false, key: "hidden", properties: vec!["display"] });
    t.push(PropertyRule { prefix: false, key: "contents", properties: vec!["display"] });
    t.push(PropertyRule { prefix: false, key: "flow-root", properties: vec!["display"] });
    t.push(PropertyRule { prefix: false, key: "list-item", properties: vec!["display"] });
    t.push(PropertyRule { prefix: false, key: "table", properties: vec!["display"] });
    t.push(PropertyRule { prefix: false, key: "inline-table", properties: vec!["display"] });
    t.push(PropertyRule { prefix: false, key: "table-caption", properties: vec!["display"] });
    t.push(PropertyRule { prefix: false, key: "table-cell", properties: vec!["display"] });
    t.push(PropertyRule { prefix: false, key: "table-column", properties: vec!["display"] });
    t.push(PropertyRule { prefix: false, key: "table-column-group", properties: vec!["display"] });
    t.push(PropertyRule { prefix: false, key: "table-footer-group", properties: vec!["display"] });
    t.push(PropertyRule { prefix: false, key: "table-header-group", properties: vec!["display"] });
    t.push(PropertyRule { prefix: false, key: "table-row-group", properties: vec!["display"] });
    t.push(PropertyRule { prefix: false, key: "table-row", properties: vec!["display"] });
    t.push(PropertyRule { prefix: false, key: "static", properties: vec!["position"] });
    t.push(PropertyRule { prefix: false, key: "fixed", properties: vec!["position"] });
    t.push(PropertyRule { prefix: false, key: "absolute", properties: vec!["position"] });
    t.push(PropertyRule { prefix: false, key: "relative", properties: vec!["position"] });
    t.push(PropertyRule { prefix: false, key: "sticky", properties: vec!["position"] });
    t.push(PropertyRule { prefix: true, key: "inset-x-", properties: vec!["inset-inline"] });
    t.push(PropertyRule { prefix: true, key: "inset-y-", properties: vec!["inset-block"] });
    t.push(PropertyRule { prefix: true, key: "inset-s-", properties: vec!["inset-inline-start"] });
    t.push(PropertyRule { prefix: true, key: "inset-e-", properties: vec!["inset-inline-end"] });
    t.push(PropertyRule { prefix: true, key: "inset-bs-", properties: vec!["inset-block-start"] });
    t.push(PropertyRule { prefix: true, key: "inset-be-", properties: vec!["inset-block-end"] });
    t.push(PropertyRule { prefix: true, key: "inset-", properties: vec!["inset"] });
    t.push(PropertyRule { prefix: true, key: "top-", properties: vec!["top"] });
    t.push(PropertyRule { prefix: true, key: "right-", properties: vec!["right"] });
    t.push(PropertyRule { prefix: true, key: "bottom-", properties: vec!["bottom"] });
    t.push(PropertyRule { prefix: true, key: "left-", properties: vec!["left"] });
    t.push(PropertyRule { prefix: true, key: "start-", properties: vec!["inset-inline-start"] });
    assert(rule_views(t@) =~~= static_rules_0());
    t
}

#[verifier::opaque]
pub open spec fn static_rules_1() -> Seq<RuleModel> {
    seq![
        (true, "end-"@, seq!["inset-inline-end"@]),
        (true, "scroll-mx-"@, seq!["scroll-margin-inline"@]),
        (true, "scroll-my-"@, seq!["scroll-margin-block"@]),
        (true, "scroll-ms-"@, seq!["scroll-margin-inline-start"@]),
        (true, "scroll-me-"@, seq!["scroll-margin-inline-end"@]),
        (true, "scroll-mbs-"@, seq!["scroll-margin-block-start"@]),
        (true, "scroll-mbe-"@, seq!["scroll-margin-block-end"@]),
        (true, "scroll-mt-"@, seq!["scroll-margin-top"@]),
        (true, "scroll-mr-"@, seq!["scroll-margin-right"@]),
        (true, "scroll-mb-"@, seq!["scroll-margin-bottom"@]),
        (true, "scroll-ml-"@, seq!["scroll-margin-left"@]),
        (true, "scroll-m-"@, seq!["scroll-margin"@]),
        (true, "mx-"@, seq!["margin-inline"@]),
        (true, "my-"@, seq!["margin-block"@]),
        (true, "ms-"@, seq!["margin-inline-start"@]),
        (true, "me-"@, seq!["margin-inline-end"@]),
        (true, "mbs-"@, seq!["margin-block-start"@]),
        (true, "mbe-"@, seq!["margin-block-end"@]),
        (true, "mt-"@, seq!["margin-top"@]),
        (true, "mr-"@, seq!["margin-right"@]),
        (true, "mb-"@, seq!["margin-bottom"@]),
        (true, "ml-"@, seq!["margin-left"@]),
        (true, "m-"@, seq!["margin"@]),
        (true, "px-"@, seq!["padding-inline"@]),
        (true, "py-"@, seq!["padding-block"@]),
        (true, "ps-"@, seq!["padding-inline-start"@]),
        (true, "pe-"@, seq!["padding-inline-end"@]),
        (true, "pbs-"@, seq!["padding-block-start"@]),
        (true, "pbe-"@, seq!["padding-block-end"@]),
        (true, "pt-"@, seq!["padding-top"@]),
        (true, "pr-"@, seq!["padding-right"@]),
        (true, "pb-"@, seq!["padding-bottom"@]),
        (true, "pl-"@, seq!["padding-left"@]),
        (true, "p-"@, seq!["padding"@]),
        (true, "block-"@, seq!["block-size"@]),
        (true, "min-block-"@, seq!["min-block-size"@]),
        (true, "max-block-"@, seq!["max-block-size"@]),
        (true, "inline-"@, seq!["inline-size"@]),
        (true, "min-inline-"@, seq!["min-inline-size"@]),
        (true, "max-inline-"@, seq!["max-inline-size"@]),
        (true, "h-"@, seq!["height"@])
    ]
}

#[verifier::spinoff_prover]
#[verifier::rlimit(80)]
fn static_table_1() -> (r: Vec<PropertyRule>)
    ensures
        rule_views(r@) == static_rules_1(),
{
    reveal(static_rules_1);
    let mut t: Vec<PropertyRule> = Vec::new();
    t.push(PropertyRule { prefix: true, key: "end-", properties: vec!["inset-inline-end"] });
    t.push(PropertyRule { prefix: true, key: "scroll-mx-", properties: vec!["scroll-margin-inline"] });
    t.push(PropertyRule { prefix: true, key: "scroll-my-", properties: vec!["scroll-margin-block"] });
    t.push(PropertyRule { prefix: true, key: "scroll-ms-", properties: vec!["scroll-margin-inline-start"] });
    t.push(PropertyRule { prefix: true, key: "scroll-me-", properties: vec!["scroll-margin-inline-end"] });
    t.push(PropertyRule { prefix: true, key: "scroll-mbs-", properties: vec!["scroll-margin-block-start"] });
    t.push(PropertyRule { prefix: true, key: "scroll-mbe-", properties: vec!["scroll-margin-block-end"] });
    t.push(PropertyRule { prefix: true, key: "scroll-mt-", properties: vec!["scroll-margin-top"] });
    t.push(PropertyRule { prefix: true, key: "scroll-mr-", properties: vec!["scroll-margin-right"] });
    t.push(PropertyRule { prefix: true, key: "scroll-mb-", properties: vec!["scroll-margin-bottom"] });
    t.push(PropertyRule { prefix: true, key: "scroll-ml-", properties: vec!["scroll-margin-left"] });
    t.push(PropertyRule { prefix: true, key: "scroll-m-", properties: vec!["scroll-margin"] });
    t.push(PropertyRule { prefix: true, key: "mx-", properties: vec!["margin-inline"] });
    t.push(PropertyRule { prefix: true, key: "my-", properties: vec!["margin-block"] });
    t.push(PropertyRule { prefix: true, key: "ms-", properties: vec!["margin-inline-start"] });
    t.push(PropertyRule { prefix: true, key: "me-", properties: vec!["margin-inline-end"] });
    t.push(PropertyRule { prefix: true, key: "mbs-", properties: vec!["margin-block-start"] });
    t.push(PropertyRule { prefix: true, key: "mbe-", properties: vec!["margin-block-end"] });
    t.push(PropertyRule { prefix: true, key: "mt-", properties: vec!["margin-top"] });
    t.push(PropertyRule { prefix: true, key: "mr-", properties: vec!["margin-right"] });
    t.push(PropertyRule { prefix: true, key: "mb-", properties: vec!["margin-bottom"] });
    t.push(PropertyRule { prefix: true, key: "ml-", properties: vec!["margin-left"] });
    t.push(PropertyRule { prefix: true, key: "m-", properties: vec!["margin"] });
    t.push(PropertyRule { prefix: true, key: "px-", properties: vec!["padding-inline"] });
    t.push(PropertyRule { prefix: true, key: "py-", properties: vec!["padding-block"] });
    t.push(PropertyRule { prefix: true, key: "ps-", properties: vec!["padding-inline-start"] });
    t.push(PropertyRule { prefix: true, key: "pe-", properties: vec!["padding-inline-end"] });
    t.push(PropertyRule { prefix: true, key: "pbs-", properties: vec!["padding-block-start"] });
    t.push(PropertyRule { prefix: true, key: "pbe-", properties: vec!["padding-block-end"] });
    t.push(PropertyRule { prefix: true, key: "pt-", properties: vec!["padding-top"] });
    t.push(PropertyRule { prefix: true, key: "pr-", properties: vec!["padding-right"] });
    t.push(PropertyRule { prefix: true, key: "pb-", properties: vec!["padding-bottom"] });
    t.push(PropertyRule { prefix: true, key: "pl-", properties: vec!["padding-left"] });
    t.push(PropertyRule { prefix: true, key: "p-", properties: vec!["padding"] });
    t.push(PropertyRule { prefix: true, key: "block-", properties: vec!["block-size"] });
    t.push(PropertyRule { prefix: true, key: "min-block-", properties: vec!["min-block-size"] });
    t.push(PropertyRule { prefix: true, key: "max-block-", properties: vec!["max-block-size"] });
    t.push(PropertyRule { prefix: true, key: "inline-", properties: vec!["inline-size"] });
    t.push(PropertyRule { prefix: true, key: "min-inline-", properties: vec!["min-inline-size"] });
    t.push(PropertyRule { prefix: true, key: "max-inline-", properties: vec!["max-inline-size"] });
    t.push(PropertyRule { prefix: true, key: "h-", properties: vec!["height"] });
    assert(rule_views(t@) =~~= static_rules_1());
    t
}

#[verifier::opaque]
pub open spec fn static_rules_2() -> Seq<RuleModel> {
    seq![
        (true, "min-h-"@, seq!["min-height"@]),
        (true, "max-h-"@, seq!["max-height"@]),
        (true, "w-"@, seq!["width"@]),
        (true, "min-w-"@, seq!["min-width"@]),
        (true, "max-w-"@, seq!["max-width"@]),
        (true, "basis-"@, seq!["flex-basis"@]),
        (true, "gap-x-"@, seq!["column-gap"@]),
        (true, "gap-y-"@, seq!["row-gap"@]),
        (true, "gap-"@, seq!["gap"@]),
        (true, "indent-"@, seq!["text-indent"@]),
        (true, "leading-"@, seq!["line-height"@]),
        (true, "size-"@, seq!["width"@, "height"@]),
        (true, "border-spacing-x-"@, seq!["--tw-border-spacing-x"@, "border-spacing"@]),
        (true, "border-spacing-y-"@, seq!["--tw-border-spacing-y"@, "border-spacing"@]),
        (true, "border-spacing-"@, seq!["--tw-border-spacing-x"@, "--tw-border-spacing-y"@, "border-spacing"@]),
        (false, "snap-mandatory"@, seq!["--tw-scroll-snap-strictness"@]),
        (false, "snap-proximity"@, seq!["--tw-scroll-snap-strictness"@]),
        (false, "touch-pan-x"@, seq!["--tw-pan-x"@, "touch-action"@]),
        (false, "touch-pan-left"@, seq!["--tw-pan-x"@, "touch-action"@]),
        (false, "touch-pan-right"@, seq!["--tw-pan-x"@, "touch-action"@]),
        (true, "touch-pan-"@, seq!["--tw-pan-y"@, "touch-action"@]),
        (false, "touch-pinch-zoom"@, seq!["--tw-pinch-zoom"@, "touch-action"@]),
        (false, "touch-auto"@, seq!["touch-action"@]),
        (false, "touch-manipulation"@, seq!["touch-action"@]),
        (false, "touch-none"@, seq!["touch-action"@]),
        (true, "select-"@, seq!["-webkit-user-select"@, "user-select"@]),
        (false, "flex-auto"@, seq!["flex"@]),
        (false, "flex-initial"@, seq!["flex"@]),
        (false, "flex-none"@, seq!["flex"@]),
        (false, "flex-row"@, seq!["flex-direction"@]),
        (false, "flex-row-reverse"@, seq!["flex-direction"@]),
        (false, "flex-col"@, seq!["flex-direction"@]),
        (false, "flex-col-reverse"@, seq!["flex-direction"@]),
        (false, "flex-wrap"@, seq!["flex-wrap"@]),
        (false, "flex-wrap-reverse"@, seq!["flex-wrap"@]),
        (false, "flex-nowrap"@, seq!["flex-wrap"@]),
        (true, "grid-flow-"@, seq!["grid-auto-flow"@]),
        (true, "font-stretch-"@, seq!["font-stretch"@]),
        (false, "isolate"@, seq!["isolation"@]),
        (false, "isolation-auto"@, seq!["isolation"@]),
        (true, "backface-"@, seq!["backface-visibility"@])
    ]
}

#[verifier::spinoff_prover]
#[verifier::rlimit(80)]
fn static_table_2() -> (r: Vec<PropertyRule>)
    ensures
        rule_views(r@) == static_rules_2(),
{
    reveal(static_rules_2);
    let mut t: Vec<PropertyRule> = Vec::new();
    t.push(PropertyRule { prefix: true, key: "min-h-", properties: vec!["min-height"] });
    t.push(PropertyRule { prefix: true, key: "max-h-", properties: vec!["max-height"] });
    t.push(PropertyRule { prefix: true, key: "w-", properties: vec!["width"] });
    t.push(PropertyRule { prefix: true, key: "min-w-", properties: vec!["min-width"] });
    t.push(PropertyRule { prefix: true, key: "max-w-", properties: vec!["max-width"] });
    t.push(PropertyRule { prefix: true, key: "basis-", properties: vec!["flex-basis"] });
    t.push(PropertyRule { prefix: true, key: "gap-x-", properties: vec!["column-gap"] });
    t.push(PropertyRule { prefix: true, key: "gap-y-", properties: vec!["row-gap"] });
    t.push(PropertyRule { prefix: true, key: "gap-", properties: vec!["gap"] });
    t.push(PropertyRule { prefix: true, key: "indent-", properties: vec!["text-indent"] });
    t.push(PropertyRule { prefix: true, key: "leading-", properties: vec!["line-height"] });
    t.push(PropertyRule { prefix: true, key: "size-", properties: vec!["width", "height"] });
    t.push(PropertyRule { prefix: true, key: "border-spacing-x-", properties: vec!["--tw-border-spacing-x", "border-spacing"] });
    t.push(PropertyRule { prefix: true, key: "border-spacing-y-", properties: vec!["--tw-border-spacing-y", "border-spacing"] });
    t.push(PropertyRule { prefix: true, key: "border-spacing-", properties: vec!["--tw-border-spacing-x", "--tw-border-spacing-y", "border-spacing"] });
    t.push(PropertyRule { prefix: false, key: "snap-mandatory", properties: vec!["--tw-scroll-snap-strictness"] });
    t.push(PropertyRule { prefix: false, key: "snap-proximity", properties: vec!["--tw-scroll-snap-strictness"] });
    t.push(PropertyRule { prefix: false, key: "touch-pan-x", properties: vec!["--tw-pan-x", "touch-action"] });
    t.push(PropertyRule { prefix: false, key: "touch-pan-left", properties: vec!["--tw-pan-x", "touch-action"] });
    t.push(PropertyRule { prefix: false, key: "touch-pan-right", properties: vec!["--tw-pan-x", "touch-action"] });
    t.push(PropertyRule { prefix: true, key: "touch-pan-", properties: vec!["--tw-pan-y", "touch-action"] });
    t.push(PropertyRule { prefix: false, key: "touch-pinch-zoom", properties: vec!["--tw-pinch-zoom", "touch-action"] });
    t.push(PropertyRule { prefix: false, key: "touch-auto", properties: vec!["touch-action"] });
    t.push(PropertyRule { prefix: false, key: "touch-manipulation", properties: vec!["touch-action"] });
    t.push(PropertyRule { prefix: false, key: "touch-none", properties: vec!["touch-action"] });
    t.push(PropertyRule { prefix: true, key: "select-", properties: vec!["-webkit-user-select", "user-select"] });
    t.push(PropertyRule { prefix: false, key: "flex-auto", properties: vec!["flex"] });
    t.push(PropertyRule { prefix: false, key: "flex-initial", properties: vec!["flex"] });
    t.push(PropertyRule { prefix: false, key: "flex-none", properties: vec!["flex"] });
    t.push(PropertyRule { prefix: false, key: "flex-row", properties: vec!["flex-direction"] });
    t.push(PropertyRule { prefix: false, key: "flex-row-reverse", properties: vec!["flex-direction"] });
    t.push(PropertyRule { prefix: false, key: "flex-col", properties: vec!["flex-direction"] });
    t.push(PropertyRule { prefix: false, key: "flex-col-reverse", properties: vec!["flex-direction"] });
    t.push(PropertyRule { prefix: false, key: "flex-wrap", properties: vec!["flex-wrap"] });
    t.push(PropertyRule { prefix: false, key: "flex-wrap-reverse", properties: vec!["flex-wrap"] });
    t.push(PropertyRule { prefix: false, key: "flex-nowrap", properties: vec!["flex-wrap"] });
    t.push(PropertyRule { prefix: true, key: "grid-flow-", properties: vec!["grid-auto-flow"] });
    t.push(PropertyRule { prefix: true, key: "font-stretch-", properties: vec!["font-stretch"] });
    t.push(PropertyRule { prefix: false, key: "isolate", properties: vec!["isolation"] });
    t.push(PropertyRule { prefix: false, key: "isolation-auto", properties: vec!["isolation"] });
    t.push(PropertyRule { prefix: true, key: "backface-", properties: vec!["backface-visibility"] });
    assert(rule_views(t@) =~~= static_rules_2());
    t
}

#[verifier::opaque]
pub open spec fn static_rules_3() -> Seq<RuleModel> {
    seq![
        (true, "forced-color-adjust-"@, seq!["forced-color-adjust"@]),
        (true, "scheme-"@, seq!["color-scheme"@]),
        (false, "scrollbar-auto"@, seq!["scrollbar-width"@]),
        (false, "scrollbar-none"@, seq!["scrollbar-width"@]),
        (false, "scrollbar-thin"@, seq!["scrollbar-width"@]),
        (true, "scrollbar-gutter-"@, seq!["scrollbar-gutter"@]),
        (false, "snap-align-none"@, seq!["scroll-snap-align"@]),
        (false, "snap-center"@, seq!["scroll-snap-align"@]),
        (false, "snap-end"@, seq!["scroll-snap-align"@]),
        (false, "snap-start"@, seq!["scroll-snap-align"@]),
        (false, "snap-always"@, seq!["scroll-snap-stop"@]),
        (false, "snap-normal"@, seq!["scroll-snap-stop"@]),
        (false, "snap-both"@, seq!["scroll-snap-type"@]),
        (false, "snap-x"@, seq!["scroll-snap-type"@]),
        (false, "snap-y"@, seq!["scroll-snap-type"@]),
        (false, "snap-none"@, seq!["scroll-snap-type"@]),
        (true, "pointer-events-"@, seq!["pointer-events"@]),
        (true, "isolation-"@, seq!["isolation"@]),
        (true, "float-"@, seq!["float"@]),
        (true, "clear-"@, seq!["clear"@]),
        (true, "box-decoration-"@, seq!["box-decoration-break"@]),
        (true, "box-"@, seq!["box-sizing"@]),
        (true, "field-sizing-"@, seq!["field-sizing"@]),
        (true, "table-"@, seq!["table-layout"@]),
        (true, "caption-"@, seq!["caption-side"@]),
        (true, "border-collapse"@, seq!["border-collapse"@]),
        (true, "border-separate"@, seq!["border-collapse"@]),
        (true, "overflow-x-"@, seq!["overflow-x"@]),
        (true, "overflow-y-"@, seq!["overflow-y"@]),
        (true, "overflow-"@, seq!["overflow"@]),
        (true, "overscroll-x-"@, seq!["overscroll-behavior-x"@]),
        (true, "overscroll-y-"@, seq!["overscroll-behavior-y"@]),
        (true, "overscroll-"@, seq!["overscroll-behavior"@]),
        (true, "columns-"@, seq!["columns"@]),
        (true, "break-after-"@, seq!["break-after"@]),
        (true, "break-before-"@, seq!["break-before"@]),
        (true, "break-inside-"@, seq!["break-inside"@]),
        (true, "list-inside"@, seq!["list-style-position"@]),
        (true, "list-outside"@, seq!["list-style-position"@]),
        (true, "appearance-"@, seq!["appearance"@]),
        (true, "select-"@, seq!["user-select"@])
    ]
}

#[verifier::spinoff_prover]
#[verifier::rlimit(80)]
fn static_table_3() -> (r: Vec<PropertyRule>)
    ensures
        rule_views(r@) == static_rules_3(),
{
    reveal(static_rules_3);
    let mut t: Vec<PropertyRule> = Vec::new();
    t.push(PropertyRule { prefix: true, key: "forced-color-adjust-", properties: vec!["forced-color-adjust"] });
    t.push(PropertyRule { prefix: true, key: "scheme-", properties: vec!["color-scheme"] });
    t.push(PropertyRule { prefix: false, key: "scrollbar-auto", properties: vec!["scrollbar-width"] });
    t.push(PropertyRule { prefix: false, key: "scrollbar-none", properties: vec!["scrollbar-width"] });
    t.push(PropertyRule { prefix: false, key: "scrollbar-thin", properties: vec!["scrollbar-width"] });
    t.push(PropertyRule { prefix: true, key: "scrollbar-gutter-", properties: vec!["scrollbar-gutter"] });
    t.push(PropertyRule { prefix: false, key: "snap-align-none", properties: vec!["scroll-snap-align"] });
    t.push(PropertyRule { prefix: false, key: "snap-center", properties: vec!["scroll-snap-align"] });
    t.push(PropertyRule { prefix: false, key: "snap-end", properties: vec!["scroll-snap-align"] });
    t.push(PropertyRule { prefix: false, key: "snap-start", properties: vec!["scroll-snap-align"] });
    t.push(PropertyRule { prefix: false, key: "snap-always", properties: vec!["scroll-snap-stop"] });
    t.push(PropertyRule { prefix: false, key: "snap-normal", properties: vec!["scroll-snap-stop"] });
    t.push(PropertyRule { prefix: false, key: "snap-both", properties: vec!["scroll-snap-type"] });
    t.push(PropertyRule { prefix: false, key: "snap-x", properties: vec!["scroll-snap-type"] });
    t.push(PropertyRule { prefix: false, key: "snap-y", properties: vec!["scroll-snap-type"] });
    t.push(PropertyRule { prefix: false, key: "snap-none", properties: vec!["scroll-snap-type"] });
    t.push(PropertyRule { prefix: true, key: "pointer-events-", properties: vec!["pointer-events"] });
    t.push(PropertyRule { prefix: true, key: "isolation-", properties: vec!["isolation"] });
    t.push(PropertyRule { prefix: true, key: "float-", properties: vec!["float"] });
    t.push(PropertyRule { prefix: true, key: "clear-", properties: vec!["clear"] });
    t.push(PropertyRule { prefix: true, key: "box-decoration-", properties: vec!["box-decoration-break"] });
    t.push(PropertyRule { prefix: true, key: "box-", properties: vec!["box-sizing"] });
    t.push(PropertyRule { prefix: true, key: "field-sizing-", properties: vec!["field-sizing"] });
    t.push(PropertyRule { prefix: true, key: "table-", properties: vec!["table-layout"] });
    t.push(PropertyRule { prefix: true, key: "caption-", properties: vec!["caption-side"] });
    t.push(PropertyRule { prefix: true, key: "border-collapse", properties: vec!["border-collapse"] });
    t.push(PropertyRule { prefix: true, key: "border-separate", properties: vec!["border-collapse"] });
    t.push(PropertyRule { prefix: true, key: "overflow-x-", properties: vec!["overflow-x"] });
    t.push(PropertyRule { prefix: true, key: "overflow-y-", properties: vec!["overflow-y"] });
    t.push(PropertyRule { prefix: true, key: "overflow-", properties: vec!["overflow"] });
    t.push(PropertyRule { prefix: true, key: "overscroll-x-", properties: vec!["overscroll-behavior-x"] });
    t.push(PropertyRule { prefix: true, key: "overscroll-y-", properties: vec!["overscroll-behavior-y"] });
    t.push(PropertyRule { prefix: true, key: "overscroll-", properties: vec!["overscroll-behavior"] });
    t.push(PropertyRule { prefix: true, key: "columns-", properties: vec!["columns"] });
    t.push(PropertyRule { prefix: true, key: "break-after-", properties: vec!["break-after"] });
    t.push(PropertyRule { prefix: true, key: "break-before-", properties: vec!["break-before"] });
    t.push(PropertyRule { prefix: true, key: "break-inside-", properties: vec!["break-inside"] });
    t.push(PropertyRule { prefix: true, key: "list-inside", properties: vec!["list-style-position"] });
    t.push(PropertyRule { prefix: true, key: "list-outside", properties: vec!["list-style-position"] });
    t.push(PropertyRule { prefix: true, key: "appearance-", properties: vec!["appearance"] });
    t.push(PropertyRule { prefix: true, key: "select-", properties: vec!["user-select"] });
    assert(rule_views(t@) =~~= static_rules_3());
    t
}

#[verifier::opaque]
pub open spec fn static_rules_4() -> Seq<RuleModel> {
    seq![
        (true, "resize-"@, seq!["resize"@]),
        (true, "scroll-auto"@, seq!["scroll-behavior"@]),
        (true, "scroll-smooth"@, seq!["scroll-behavior"@]),
        (true, "touch-"@, seq!["touch-action"@]),
        (true, "whitespace-"@, seq!["white-space"@]),
        (true, "hyphens-"@, seq!["hyphens"@]),
        (true, "align-"@, seq!["vertical-align"@]),
        (true, "bg-fixed"@, seq!["background-attachment"@]),
        (true, "bg-local"@, seq!["background-attachment"@]),
        (true, "bg-scroll"@, seq!["background-attachment"@]),
        (true, "bg-clip-"@, seq!["background-clip"@]),
        (true, "bg-origin-"@, seq!["background-origin"@]),
        (true, "bg-repeat"@, seq!["background-repeat"@]),
        (true, "bg-blend-"@, seq!["background-blend-mode"@]),
        (true, "mix-blend-"@, seq!["mix-blend-mode"@]),
        (true, "uppercase"@, seq!["text-transform"@]),
        (true, "lowercase"@, seq!["text-transform"@]),
        (true, "capitalize"@, seq!["text-transform"@]),
        (true, "normal-case"@, seq!["text-transform"@]),
        (true, "italic"@, seq!["font-style"@]),
        (true, "not-italic"@, seq!["font-style"@]),
        (true, "antialiased"@, seq!["-webkit-font-smoothing"@]),
        (true, "subpixel-antialiased"@, seq!["-webkit-font-smoothing"@]),
        (true, "cursor-"@, seq!["cursor"@]),
        (true, "caret-"@, seq!["caret-color"@]),
        (true, "accent-"@, seq!["accent-color"@]),
        (true, "will-change-"@, seq!["will-change"@]),
        (false, "visible"@, seq!["visibility"@]),
        (false, "invisible"@, seq!["visibility"@]),
        (false, "collapse"@, seq!["visibility"@]),
        (false, "contain-content"@, seq!["contain"@]),
        (false, "contain-none"@, seq!["contain"@]),
        (false, "contain-strict"@, seq!["contain"@]),
        (false, "contain-inline-size"@, seq!["--tw-contain-size"@, "contain"@]),
        (false, "contain-size"@, seq!["--tw-contain-size"@, "contain"@]),
        (false, "contain-layout"@, seq!["--tw-contain-layout"@, "contain"@]),
        (false, "contain-paint"@, seq!["--tw-contain-paint"@, "contain"@]),
        (false, "contain-style"@, seq!["--tw-contain-style"@, "contain"@]),
        (false, "diagonal-fractions"@, seq!["--tw-numeric-fraction"@, "font-variant-numeric"@]),
        (false, "stacked-fractions"@, seq!["--tw-numeric-fraction"@, "font-variant-numeric"@]),
        (false, "lining-nums"@, seq!["--tw-numeric-figure"@, "font-variant-numeric"@])
    ]
}

#[verifier::spinoff_prover]
#[verifier::rlimit(80)]
fn static_table_4() -> (r: Vec<PropertyRule>)
    ensures
        rule_views(r@) == static_rules_4(),
{
    reveal(static_rules_4);
    let mut t: Vec<PropertyRule> = Vec::new();
    t.push(PropertyRule { prefix: true, key: "resize-", properties: vec!["resize"] });
    t.push(PropertyRule { prefix: true, key: "scroll-auto", properties: vec!["scroll-behavior"] });
    t.push(PropertyRule { prefix: true, key: "scroll-smooth", properties: vec!["scroll-behavior"] });
    t.push(PropertyRule { prefix: true, key: "touch-", properties: vec!["touch-action"] });
    t.push(PropertyRule { prefix: true, key: "whitespace-", properties: vec!["white-space"] });
    t.push(PropertyRule { prefix: true, key: "hyphens-", properties: vec!["hyphens"] });
    t.push(PropertyRule { prefix: true, key: "align-", properties: vec!["vertical-align"] });
    t.push(PropertyRule { prefix: true, key: "bg-fixed", properties: vec!["background-attachment"] });
    t.push(PropertyRule { prefix: true, key: "bg-local", properties: vec!["background-attachment"] });
    t.push(PropertyRule { prefix: true, key: "bg-scroll", properties: vec!["background-attachment"] });
    t.push(PropertyRule { prefix: true, key: "bg-clip-", properties: vec!["background-clip"] });
    t.push(PropertyRule { prefix: true, key: "bg-origin-", properties: vec!["background-origin"] });
    t.push(PropertyRule { prefix: true, key: "bg-repeat", properties: vec!["background-repeat"] });
    t.push(PropertyRule { prefix: true, key: "bg-blend-", properties: vec!["background-blend-mode"] });
    t.push(PropertyRule { prefix: true, key: "mix-blend-", properties: vec!["mix-blend-mode"] });
    t.push(PropertyRule { prefix: true, key: "uppercase", properties: vec!["text-transform"] });
    t.push(PropertyRule { prefix: true, key: "lowercase", properties: vec!["text-transform"] });
    t.push(PropertyRule { prefix: true, key: "capitalize", properties: vec!["text-transform"] });
    t.push(PropertyRule { prefix: true, key: "normal-case", properties: vec!["text-transform"] });
    t.push(PropertyRule { prefix: true, key: "italic", properties: vec!["font-style"] });
    t.push(PropertyRule { prefix: true, key: "not-italic", properties: vec!["font-style"] });
    t.push(PropertyRule { prefix: true, key: "antialiased", properties: vec!["-webkit-font-smoothing"] });
    t.push(PropertyRule { prefix: true, key: "subpixel-antialiased", properties: vec!["-webkit-font-smoothing"] });
    t.push(PropertyRule { prefix: true, key: "cursor-", properties: vec!["cursor"] });
    t.push(PropertyRule { prefix: true, key: "caret-", properties: vec!["caret-color"] });
    t.push(PropertyRule { prefix: true, key: "accent-", properties: vec!["accent-color"] });
    t.push(PropertyRule { prefix: true, key: "will-change-", properties: vec!["will-change"] });
    t.push(PropertyRule { prefix: false, key: "visible", properties: vec!["visibility"] });
    t.push(PropertyRule { prefix: false, key: "invisible", properties: vec!["visibility"] });
    t.push(PropertyRule { prefix: false, key: "collapse", properties: vec!["visibility"] });
    t.push(PropertyRule { prefix: false, key: "contain-content", properties: vec!["contain"] });
    t.push(PropertyRule { prefix: false, key: "contain-none", properties: vec!["contain"] });
    t.push(PropertyRule { prefix: false, key: "contain-strict", properties: vec!["contain"] });
    t.push(PropertyRule { prefix: false, key: "contain-inline-size", properties: vec!["--tw-contain-size", "contain"] });
    t.push(PropertyRule { prefix: false, key: "contain-size", properties: vec!["--tw-contain-size", "contain"] });
    t.push(PropertyRule { prefix: false, key: "contain-layout", properties: vec!["--tw-contain-layout", "contain"] });
    t.push(PropertyRule { prefix: false, key: "contain-paint", properties: vec!["--tw-contain-paint", "contain"] });
    t.push(PropertyRule { prefix: false, key: "contain-style", properties: vec!["--tw-contain-style", "contain"] });
    t.push(PropertyRule { prefix: false, key: "diagonal-fractions", properties: vec!["--tw-numeric-fraction", "font-variant-numeric"] });
    t.push(PropertyRule { prefix: false, key: "stacked-fractions", properties: vec!["--tw-numeric-fraction", "font-variant-numeric"] });
    t.push(PropertyRule { prefix: false, key: "lining-nums", properties: vec!["--tw-numeric-figure", "font-variant-numeric"] });
    assert(rule_views(t@) =~~= static_rules_4());
    t
}

#[verifier::opaque]
pub open spec fn static_rules_5() -> Seq<RuleModel> {
    seq![
        (false, "oldstyle-nums"@, seq!["--tw-numeric-figure"@, "font-variant-numeric"@]),
        (false, "proportional-nums"@, seq!["--tw-numeric-spacing"@, "font-variant-numeric"@]),
        (false, "tabular-nums"@, seq!["--tw-numeric-spacing"@, "font-variant-numeric"@]),
        (false, "ordinal"@, seq!["--tw-ordinal"@, "font-variant-numeric"@]),
        (false, "slashed-zero"@, seq!["--tw-slashed-zero"@, "font-variant-numeric"@]),
        (false, "normal-nums"@, seq!["font-variant-numeric"@]),
        (false, "divide-x-reverse"@, seq!["--tw-divide-x-reverse"@]),
        (false, "divide-y-reverse"@, seq!["--tw-divide-y-reverse"@]),
        (false, "space-x-reverse"@, seq!["--tw-space-x-reverse"@]),
        (false, "space-y-reverse"@, seq!["--tw-space-y-reverse"@]),
        (false, "space-x-px"@, seq!["--tw-space-x-reverse"@, "margin-inline-start"@, "margin-inline-end"@]),
        (false, "space-y-px"@, seq!["--tw-space-y-reverse"@, "margin-block-start"@, "margin-block-end"@]),
        (false, "duration-initial"@, seq!["--tw-duration"@]),
        (false, "ring-inset"@, seq!["--tw-ring-inset"@]),
        (false, "shadow-initial"@, seq!["--tw-shadow-color"@]),
        (false, "inset-shadow-initial"@, seq!["--tw-inset-shadow-color"@]),
        (false, "text-shadow-initial"@, seq!["--tw-text-shadow-color"@]),
        (false, "via-none"@, seq!["--tw-gradient-via-stops"@]),
        (false, "drop-shadow-none"@, seq!["--tw-drop-shadow"@, "filter"@]),
        (false, "fill-none"@, seq!["fill"@]),
        (false, "stroke-none"@, seq!["stroke"@]),
        (false, "transform-cpu"@, seq!["transform"@]),
        (false, "transform-gpu"@, seq!["transform"@]),
        (false, "transform-none"@, seq!["transform"@]),
        (false, "transform-3d"@, seq!["transform-style"@]),
        (false, "transform-flat"@, seq!["transform-style"@]),
        (false, "transform-border"@, seq!["transform-box"@]),
        (false, "transform-content"@, seq!["transform-box"@]),
        (false, "transform-fill"@, seq!["transform-box"@]),
        (false, "transform-stroke"@, seq!["transform-box"@]),
        (false, "transform-view"@, seq!["transform-box"@]),
        (false, "translate-3d"@, seq!["translate"@]),
        (false, "translate-none"@, seq!["translate"@]),
        (false, "rotate-none"@, seq!["rotate"@]),
        (false, "scale-3d"@, seq!["scale"@]),
        (false, "scale-none"@, seq!["scale"@]),
        (false, "transition-discrete"@, seq!["transition-behavior"@]),
        (false, "transition-normal"@, seq!["transition-behavior"@]),
        (false, "content-none"@, seq!["--tw-content"@, "content"@]),
        (true, "place-content-"@, seq!["place-content"@]),
        (true, "place-items-"@, seq!["place-items"@])
    ]
}

#[verifier::spinoff_prover]
#[verifier::rlimit(80)]
fn static_table_5() -> (r: Vec<PropertyRule>)
    ensures
        rule_views(r@) == static_rules_5(),
{
    reveal(static_rules_5);
    let mut t: Vec<PropertyRule> = Vec::new();
    t.push(PropertyRule { prefix: false, key: "oldstyle-nums", properties: vec!["--tw-numeric-figure", "font-variant-numeric"] });
    t.push(PropertyRule { prefix: false, key: "proportional-nums", properties: vec!["--tw-numeric-spacing", "font-variant-numeric"] });
    t.push(PropertyRule { prefix: false, key: "tabular-nums", properties: vec!["--tw-numeric-spacing", "font-variant-numeric"] });
    t.push(PropertyRule { prefix: false, key: "ordinal", properties: vec!["--tw-ordinal", "font-variant-numeric"] });
    t.push(PropertyRule { prefix: false, key: "slashed-zero", properties: vec!["--tw-slashed-zero", "font-variant-numeric"] });
    t.push(PropertyRule { prefix: false, key: "normal-nums", properties: vec!["font-variant-numeric"] });
    t.push(PropertyRule { prefix: false, key: "divide-x-reverse", properties: vec!["--tw-divide-x-reverse"] });
    t.push(PropertyRule { prefix: false, key: "divide-y-reverse", properties: vec!["--tw-divide-y-reverse"] });
    t.push(PropertyRule { prefix: false, key: "space-x-reverse", properties: vec!["--tw-space-x-reverse"] });
    t.push(PropertyRule { prefix: false, key: "space-y-reverse", properties: vec!["--tw-space-y-reverse"] });
    t.push(PropertyRule { prefix: false, key: "space-x-px", properties: vec!["--tw-space-x-reverse", "margin-inline-start", "margin-inline-end"] });
    t.push(PropertyRule { prefix: false, key: "space-y-px", properties: vec!["--tw-space-y-reverse", "margin-block-start", "margin-block-end"] });
    t.push(PropertyRule { prefix: false, key: "duration-initial", properties: vec!["--tw-duration"] });
    t.push(PropertyRule { prefix: false, key: "ring-inset", properties: vec!["--tw-ring-inset"] });
    t.push(PropertyRule { prefix: false, key: "shadow-initial", properties: vec!["--tw-shadow-color"] });
    t.push(PropertyRule { prefix: false, key: "inset-shadow-initial", properties: vec!["--tw-inset-shadow-color"] });
    t.push(PropertyRule { prefix: false, key: "text-shadow-initial", properties: vec!["--tw-text-shadow-color"] });
    t.push(PropertyRule { prefix: false, key: "via-none", properties: vec!["--tw-gradient-via-stops"] });
    t.push(PropertyRule { prefix: false, key: "drop-shadow-none", properties: vec!["--tw-drop-shadow", "filter"] });
    t.push(PropertyRule { prefix: false, key: "fill-none", properties: vec!["fill"] });
    t.push(PropertyRule { prefix: false, key: "stroke-none", properties: vec!["stroke"] });
    t.push(PropertyRule { prefix: false, key: "transform-cpu", properties: vec!["transform"] });
    t.push(PropertyRule { prefix: false, key: "transform-gpu", properties: vec!["transform"] });
    t.push(PropertyRule { prefix: false, key: "transform-none", properties: vec!["transform"] });
    t.push(PropertyRule { prefix: false, key: "transform-3d", properties: vec!["transform-style"] });
    t.push(PropertyRule { prefix: false, key: "transform-flat", properties: vec!["transform-style"] });
    t.push(PropertyRule { prefix: false, key: "transform-border", properties: vec!["transform-box"] });
    t.push(PropertyRule { prefix: false, key: "transform-content", properties: vec!["transform-box"] });
    t.push(PropertyRule { prefix: false, key: "transform-fill", properties: vec!["transform-box"] });
    t.push(PropertyRule { prefix: false, key: "transform-stroke", properties: vec!["transform-box"] });
    t.push(PropertyRule { prefix: false, key: "transform-view", properties: vec!["transform-box"] });
    t.push(PropertyRule { prefix: false, key: "translate-3d", properties: vec!["translate"] });
    t.push(PropertyRule { prefix: false, key: "translate-none", properties: vec!["translate"] });
    t.push(PropertyRule { prefix: false, key: "rotate-none", properties: vec!["rotate"] });
    t.push(PropertyRule { prefix: false, key: "scale-3d", properties: vec!["scale"] });
    t.push(PropertyRule { prefix: false, key: "scale-none", properties: vec!["scale"] });
    t.push(PropertyRule { prefix: false, key: "transition-discrete", properties: vec!["transition-behavior"] });
    t.push(PropertyRule { prefix: false, key: "transition-normal", properties: vec!["transition-behavior"] });
    t.push(PropertyRule { prefix: false, key: "content-none", properties: vec!["--tw-content", "content"] });
    t.push(PropertyRule { prefix: true, key: "place-content-", properties: vec!["place-content"] });
    t.push(PropertyRule { prefix: true, key: "place-items-", properties: vec!["place-items"] });
    assert(rule_views(t@) =~~= static_rules_5());
    t
}

#[verifier::opaque]
pub open spec fn static_rules_6() -> Seq<RuleModel> {
    seq![
        (true, "content-"@, seq!["align-content"@]),
        (true, "items-"@, seq!["align-items"@]),
        (true, "justify-items-"@, seq!["justify-items"@]),
        (true, "justify-"@, seq!["justify-content"@]),
        (true, "place-self-"@, seq!["place-self"@]),
        (true, "self-"@, seq!["align-self"@]),
        (true, "justify-self-"@, seq!["justify-self"@]),
        (false, "border"@, seq!["border-style"@, "border-width"@]),
        (false, "border-x"@, seq!["border-inline-style"@, "border-inline-width"@]),
        (false, "border-y"@, seq!["border-block-style"@, "border-block-width"@]),
        (false, "border-s"@, seq!["border-inline-start-style"@, "border-inline-start-width"@]),
        (false, "border-e"@, seq!["border-inline-end-style"@, "border-inline-end-width"@]),
        (false, "border-bs"@, seq!["border-block-start-style"@, "border-block-start-width"@]),
        (false, "border-be"@, seq!["border-block-end-style"@, "border-block-end-width"@]),
        (false, "border-t"@, seq!["border-top-style"@, "border-top-width"@]),
        (false, "border-r"@, seq!["border-right-style"@, "border-right-width"@]),
        (false, "border-b"@, seq!["border-bottom-style"@, "border-bottom-width"@]),
        (false, "border-l"@, seq!["border-left-style"@, "border-left-width"@]),
        (false, "outline"@, seq!["outline-style"@, "outline-width"@]),
        (false, "ring"@, seq!["--tw-ring-shadow"@, "box-shadow"@]),
        (false, "object-contain"@, seq!["object-fit"@]),
        (false, "object-cover"@, seq!["object-fit"@]),
        (false, "object-fill"@, seq!["object-fit"@]),
        (false, "object-none"@, seq!["object-fit"@]),
        (false, "object-scale-down"@, seq!["object-fit"@]),
        (true, "object-"@, seq!["object-position"@]),
        (false, "bg-auto"@, seq!["background-size"@]),
        (false, "bg-cover"@, seq!["background-size"@]),
        (false, "bg-contain"@, seq!["background-size"@]),
        (false, "bg-bottom"@, seq!["background-position"@]),
        (false, "bg-bottom-left"@, seq!["background-position"@]),
        (false, "bg-bottom-right"@, seq!["background-position"@]),
        (false, "bg-center"@, seq!["background-position"@]),
        (false, "bg-left"@, seq!["background-position"@]),
        (false, "bg-left-bottom"@, seq!["background-position"@]),
        (false, "bg-left-top"@, seq!["background-position"@]),
        (false, "bg-right"@, seq!["background-position"@]),
        (false, "bg-right-bottom"@, seq!["background-position"@]),
        (false, "bg-right-top"@, seq!["background-position"@]),
        (false, "bg-top"@, seq!["background-position"@]),
        (false, "bg-top-left"@, seq!["background-position"@])
    ]
}

#[verifier::spinoff_prover]
#[verifier::rlimit(80)]
fn static_table_6() -> (r: Vec<PropertyRule>)
    ensures
        rule_views(r@) == static_rules_6(),
{
    reveal(static_rules_6);
    let mut t: Vec<PropertyRule> = Vec::new();
    t.push(PropertyRule { prefix: true, key: "content-", properties: vec!["align-content"] });
    t.push(PropertyRule { prefix: true, key: "items-", properties: vec!["align-items"] });
    t.push(PropertyRule { prefix: true, key: "justify-items-", properties: vec!["justify-items"] });
    t.push(PropertyRule { prefix: true, key: "justify-", properties: vec!["justify-content"] });
    t.push(PropertyRule { prefix: true, key: "place-self-", properties: vec!["place-self"] });
    t.push(PropertyRule { prefix: true, key: "self-", properties: vec!["align-self"] });
    t.push(PropertyRule { prefix: true, key: "justify-self-", properties: vec!["justify-self"] });
    t.push(PropertyRule { prefix: false, key: "border", properties: vec!["border-style", "border-width"] });
    t.push(PropertyRule { prefix: false, key: "border-x", properties: vec!["border-inline-style", "border-inline-width"] });
    t.push(PropertyRule { prefix: false, key: "border-y", properties: vec!["border-block-style", "border-block-width"] });
    t.push(PropertyRule { prefix: false, key: "border-s", properties: vec!["border-inline-start-style", "border-inline-start-width"] });
    t.push(PropertyRule { prefix: false, key: "border-e", properties: vec!["border-inline-end-style", "border-inline-end-width"] });
    t.push(PropertyRule { prefix: false, key: "border-bs", properties: vec!["border-block-start-style", "border-block-start-width"] });
    t.push(PropertyRule { prefix: false, key: "border-be", properties: vec!["border-block-end-style", "border-block-end-width"] });
    t.push(PropertyRule { prefix: false, key: "border-t", properties: vec!["border-top-style", "border-top-width"] });
    t.push(PropertyRule { prefix: false, key: "border-r", properties: vec!["border-right-style", "border-right-width"] });
    t.push(PropertyRule { prefix: false, key: "border-b", properties: vec!["border-bottom-style", "border-bottom-width"] });
    t.push(PropertyRule { prefix: false, key: "border-l", properties: vec!["border-left-style", "border-left-width"] });
    t.push(PropertyRule { prefix: false, key: "outline", properties: vec!["outline-style", "outline-width"] });
    t.push(PropertyRule { prefix: false, key: "ring", properties: vec!["--tw-ring-shadow", "box-shadow"] });
    t.push(PropertyRule { prefix: false, key: "object-contain", properties: vec!["object-fit"] });
    t.push(PropertyRule { prefix: false, key: "object-cover", properties: vec!["object-fit"] });
    t.push(PropertyRule { prefix: false, key: "object-fill", properties: vec!["object-fit"] });
    t.push(PropertyRule { prefix: false, key: "object-none", properties: vec!["object-fit"] });
    t.push(PropertyRule { prefix: false, key: "object-scale-down", properties: vec!["object-fit"] });
    t.push(PropertyRule { prefix: true, key: "object-", properties: vec!["object-position"] });
    t.push(PropertyRule { prefix: false, key: "bg-auto", properties: vec!["background-size"] });
    t.push(PropertyRule { prefix: false, key: "bg-cover", properties: vec!["background-size"] });
    t.push(PropertyRule { prefix: false, key: "bg-contain", properties: vec!["background-size"] });
    t.push(PropertyRule { prefix: false, key: "bg-bottom", properties: vec!["background-position"] });
    t.push(PropertyRule { prefix: false, key: "bg-bottom-left", properties: vec!["background-position"] });
    t.push(PropertyRule { prefix: false, key: "bg-bottom-right", properties: vec!["background-position"] });
    t.push(PropertyRule { prefix: false, key: "bg-center", properties: vec!["background-position"] });
    t.push(PropertyRule { prefix: false, key: "bg-left", properties: vec!["background-position"] });
    t.push(PropertyRule { prefix: false, key: "bg-left-bottom", properties: vec!["background-position"] });
    t.push(PropertyRule { prefix: false, key: "bg-left-top", properties: vec!["background-position"] });
    t.push(PropertyRule { prefix: false, key: "bg-right", properties: vec!["background-position"] });
    t.push(PropertyRule { prefix: false, key: "bg-right-bottom", properties: vec!["background-position"] });
    t.push(PropertyRule { prefix: false, key: "bg-right-top", properties: vec!["background-position"] });
    t.push(PropertyRule { prefix: false, key: "bg-top", properties: vec!["background-position"] });
    t.push(PropertyRule { prefix: false, key: "bg-top-left", properties: vec!["background-position"] });
    assert(rule_views(t@) =~~= static_rules_6());
    t
}

#[verifier::opaque]
pub open spec fn static_rules_7() -> Seq<RuleModel> {
    seq![
        (false, "bg-top-right"@, seq!["background-position"@]),
        (false, "bg-none"@, seq!["background-image"@]),
        (true, "bg-gradient-to-"@, seq!["--tw-gradient-position"@, "background-image"@]),
        (false, "mask-add"@, seq!["mask-composite"@]),
        (false, "mask-subtract"@, seq!["mask-composite"@]),
        (false, "mask-intersect"@, seq!["mask-composite"@]),
        (false, "mask-exclude"@, seq!["mask-composite"@]),
        (false, "mask-alpha"@, seq!["mask-mode"@]),
        (false, "mask-luminance"@, seq!["mask-mode"@]),
        (false, "mask-match"@, seq!["mask-mode"@]),
        (false, "mask-auto"@, seq!["mask-size"@]),
        (false, "mask-contain"@, seq!["mask-size"@]),
        (false, "mask-cover"@, seq!["mask-size"@]),
        (false, "mask-bottom"@, seq!["mask-position"@]),
        (false, "mask-bottom-left"@, seq!["mask-position"@]),
        (false, "mask-bottom-right"@, seq!["mask-position"@]),
        (false, "mask-center"@, seq!["mask-position"@]),
        (false, "mask-left"@, seq!["mask-position"@]),
        (false, "mask-right"@, seq!["mask-position"@]),
        (false, "mask-top"@, seq!["mask-position"@]),
        (false, "mask-top-left"@, seq!["mask-position"@]),
        (false, "mask-top-right"@, seq!["mask-position"@]),
        (false, "mask-circle"@, seq!["--tw-mask-radial-shape"@]),
        (false, "mask-ellipse"@, seq!["--tw-mask-radial-shape"@]),
        (true, "mask-clip-"@, seq!["mask-clip"@]),
        (false, "mask-no-clip"@, seq!["mask-clip"@]),
        (false, "mask-none"@, seq!["mask-image"@]),
        (true, "mask-origin-"@, seq!["mask-origin"@]),
        (false, "mask-radial-at-bottom"@, seq!["--tw-mask-radial-position"@]),
        (false, "mask-radial-at-bottom-left"@, seq!["--tw-mask-radial-position"@]),
        (false, "mask-radial-at-bottom-right"@, seq!["--tw-mask-radial-position"@]),
        (false, "mask-radial-at-center"@, seq!["--tw-mask-radial-position"@]),
        (false, "mask-radial-at-left"@, seq!["--tw-mask-radial-position"@]),
        (false, "mask-radial-at-right"@, seq!["--tw-mask-radial-position"@]),
        (false, "mask-radial-at-top"@, seq!["--tw-mask-radial-position"@]),
        (false, "mask-radial-at-top-left"@, seq!["--tw-mask-radial-position"@]),
        (false, "mask-radial-at-top-right"@, seq!["--tw-mask-radial-position"@]),
        (false, "mask-radial-closest-corner"@, seq!["--tw-mask-radial-size"@]),
        (false, "mask-radial-closest-side"@, seq!["--tw-mask-radial-size"@]),
        (false, "mask-radial-farthest-corner"@, seq!["--tw-mask-radial-size"@]),
        (false, "mask-radial-farthest-side"@, seq!["--tw-mask-radial-size"@])
    ]
}

#[verifier::spinoff_prover]
#[verifier::rlimit(80)]
fn static_table_7() -> (r: Vec<PropertyRule>)
    ensures
        rule_views(r@) == static_rules_7(),
{
    reveal(static_rules_7);
    let mut t: Vec<PropertyRule> = Vec::new();
    t.push(PropertyRule { prefix: false, key: "bg-top-right", properties: vec!["background-position"] });
    t.push(PropertyRule { prefix: false, key: "bg-none", properties: vec!["background-image"] });
    t.push(PropertyRule { prefix: true, key: "bg-gradient-to-", properties: vec!["--tw-gradient-position", "background-image"] });
    t.push(PropertyRule { prefix: false, key: "mask-add", properties: vec!["mask-composite"] });
    t.push(PropertyRule { prefix: false, key: "mask-subtract", properties: vec!["mask-composite"] });
    t.push(PropertyRule { prefix: false, key: "mask-intersect", properties: vec!["mask-composite"] });
    t.push(PropertyRule { prefix: false, key: "mask-exclude", properties: vec!["mask-composite"] });
    t.push(PropertyRule { prefix: false, key: "mask-alpha", properties: vec!["mask-mode"] });
    t.push(PropertyRule { prefix: false, key: "mask-luminance", properties: vec!["mask-mode"] });
    t.push(PropertyRule { prefix: false, key: "mask-match", properties: vec!["mask-mode"] });
    t.push(PropertyRule { prefix: false, key: "mask-auto", properties: vec!["mask-size"] });
    t.push(PropertyRule { prefix: false, key: "mask-contain", properties: vec!["mask-size"] });
    t.push(PropertyRule { prefix: false, key: "mask-cover", properties: vec!["mask-size"] });
    t.push(PropertyRule { prefix: false, key: "mask-bottom", properties: vec!["mask-position"] });
    t.push(PropertyRule { prefix: false, key: "mask-bottom-left", properties: vec!["mask-position"] });
    t.push(PropertyRule { prefix: false, key: "mask-bottom-right", properties: vec!["mask-position"] });
    t.push(PropertyRule { prefix: false, key: "mask-center", properties: vec!["mask-position"] });
    t.push(PropertyRule { prefix: false, key: "mask-left", properties: vec!["mask-position"] });
    t.push(PropertyRule { prefix: false, key: "mask-right", properties: vec!["mask-position"] });
    t.push(PropertyRule { prefix: false, key: "mask-top", properties: vec!["mask-position"] });
    t.push(PropertyRule { prefix: false, key: "mask-top-left", properties: vec!["mask-position"] });
    t.push(PropertyRule { prefix: false, key: "mask-top-right", properties: vec!["mask-position"] });
    t.push(PropertyRule { prefix: false, key: "mask-circle", properties: vec!["--tw-mask-radial-shape"] });
    t.push(PropertyRule { prefix: false, key: "mask-ellipse", properties: vec!["--tw-mask-radial-shape"] });
    t.push(PropertyRule { prefix: true, key: "mask-clip-", properties: vec!["mask-clip"] });
    t.push(PropertyRule { prefix: false, key: "mask-no-clip", properties: vec!["mask-clip"] });
    t.push(PropertyRule { prefix: false, key: "mask-none", properties: vec!["mask-image"] });
    t.push(PropertyRule { prefix: true, key: "mask-origin-", properties: vec!["mask-origin"] });
    t.push(PropertyRule { prefix: false, key: "mask-radial-at-bottom", properties: vec!["--tw-mask-radial-position"] });
    t.push(PropertyRule { prefix: false, key: "mask-radial-at-bottom-left", properties: vec!["--tw-mask-radial-position"] });
    t.push(PropertyRule { prefix: false, key: "mask-radial-at-bottom-right", properties: vec!["--tw-mask-radial-position"] });
    t.push(PropertyRule { prefix: false, key: "mask-radial-at-center", properties: vec!["--tw-mask-radial-position"] });
    t.push(PropertyRule { prefix: false, key: "mask-radial-at-left", properties: vec!["--tw-mask-radial-position"] });
    t.push(PropertyRule { prefix: false, key: "mask-radial-at-right", properties: vec!["--tw-mask-radial-position"] });
    t.push(PropertyRule { prefix: false, key: "mask-radial-at-top", properties: vec!["--tw-mask-radial-position"] });
    t.push(PropertyRule { prefix: false, key: "mask-radial-at-top-left", properties: vec!["--tw-mask-radial-position"] });
    t.push(PropertyRule { prefix: false, key: "mask-radial-at-top-right", properties: vec!["--tw-mask-radial-position"] });
    t.push(PropertyRule { prefix: false, key: "mask-radial-closest-corner", properties: vec!["--tw-mask-radial-size"] });
    t.push(PropertyRule { prefix: false, key: "mask-radial-closest-side", properties: vec!["--tw-mask-radial-size"] });
    t.push(PropertyRule { prefix: false, key: "mask-radial-farthest-corner", properties: vec!["--tw-mask-radial-size"] });
    t.push(PropertyRule { prefix: false, key: "mask-radial-farthest-side", properties: vec!["--tw-mask-radial-size"] });
    assert(rule_views(t@) =~~= static_rules_7());
    t
}

#[verifier::opaque]
pub open spec fn static_rules_8() -> Seq<RuleModel> {
    seq![
        (false, "mask-type-alpha"@, seq!["mask-type"@]),
        (false, "mask-type-luminance"@, seq!["mask-type"@]),
        (false, "mask-no-repeat"@, seq!["mask-repeat"@]),
        (true, "mask-repeat"@, seq!["mask-repeat"@]),
        (false, "truncate"@, seq!["overflow"@, "text-overflow"@, "white-space"@]),
        (false, "text-ellipsis"@, seq!["text-overflow"@]),
        (false, "text-clip"@, seq!["text-overflow"@]),
        (false, "text-wrap"@, seq!["text-wrap"@]),
        (false, "text-nowrap"@, seq!["text-wrap"@]),
        (false, "text-balance"@, seq!["text-wrap"@]),
        (false, "text-pretty"@, seq!["text-wrap"@]),
        (false, "wrap-anywhere"@, seq!["overflow-wrap"@]),
        (false, "wrap-break-word"@, seq!["overflow-wrap"@]),
        (false, "wrap-normal"@, seq!["overflow-wrap"@]),
        (false, "break-normal"@, seq!["overflow-wrap"@, "word-break"@]),
        (false, "break-words"@, seq!["overflow-wrap"@, "word-break"@]),
        (false, "break-all"@, seq!["overflow-wrap"@, "word-break"@]),
        (false, "break-keep"@, seq!["overflow-wrap"@, "word-break"@]),
        (false, "border-solid"@, seq!["border-style"@]),
        (false, "border-dashed"@, seq!["border-style"@]),
        (false, "border-dotted"@, seq!["border-style"@]),
        (false, "border-double"@, seq!["border-style"@]),
        (false, "border-hidden"@, seq!["border-style"@]),
        (false, "border-none"@, seq!["border-style"@]),
        (false, "divide-solid"@, seq!["border-style"@]),
        (false, "divide-dashed"@, seq!["border-style"@]),
        (false, "divide-dotted"@, seq!["border-style"@]),
        (false, "divide-double"@, seq!["border-style"@]),
        (false, "divide-none"@, seq!["border-style"@]),
        (false, "decoration-solid"@, seq!["text-decoration-style"@]),
        (false, "decoration-double"@, seq!["text-decoration-style"@]),
        (false, "decoration-dotted"@, seq!["text-decoration-style"@]),
        (false, "decoration-dashed"@, seq!["text-decoration-style"@]),
        (false, "decoration-wavy"@, seq!["text-decoration-style"@]),
        (false, "decoration-auto"@, seq!["text-decoration-thickness"@]),
        (false, "decoration-from-font"@, seq!["text-decoration-thickness"@]),
        (false, "decoration-clone"@, seq!["box-decoration-break"@]),
        (false, "decoration-slice"@, seq!["box-decoration-break"@]),
        (false, "outline-solid"@, seq!["outline-style"@]),
        (false, "outline-dashed"@, seq!["outline-style"@]),
        (false, "outline-dotted"@, seq!["outline-style"@])
    ]
}

#[verifier::spinoff_prover]
#[verifier::rlimit(80)]
fn static_table_8() -> (r: Vec<PropertyRule>)
    ensures
        rule_views(r@) == static_rules_8(),
{
    reveal(static_rules_8);
    let mut t: Vec<PropertyRule> = Vec::new();
    t.push(PropertyRule { prefix: false, key: "mask-type-alpha", properties: vec!["mask-type"] });
    t.push(PropertyRule { prefix: false, key: "mask-type-luminance", properties: vec!["mask-type"] });
    t.push(PropertyRule { prefix: false, key: "mask-no-repeat", properties: vec!["mask-repeat"] });
    t.push(PropertyRule { prefix: true, key: "mask-repeat", properties: vec!["mask-repeat"] });
    t.push(PropertyRule { prefix: false, key: "truncate", properties: vec!["overflow", "text-overflow", "white-space"] });
    t.push(PropertyRule { prefix: false, key: "text-ellipsis", properties: vec!["text-overflow"] });
    t.push(PropertyRule { prefix: false, key: "text-clip", properties: vec!["text-overflow"] });
    t.push(PropertyRule { prefix: false, key: "text-wrap", properties: vec!["text-wrap"] });
    t.push(PropertyRule { prefix: false, key: "text-nowrap", properties: vec!["text-wrap"] });
    t.push(PropertyRule { prefix: false, key: "text-balance", properties: vec!["text-wrap"] });
    t.push(PropertyRule { prefix: false, key: "text-pretty", properties: vec!["text-wrap"] });
    t.push(PropertyRule { prefix: false, key: "wrap-anywhere", properties: vec!["overflow-wrap"] });
    t.push(PropertyRule { prefix: false, key: "wrap-break-word", properties: vec!["overflow-wrap"] });
    t.push(PropertyRule { prefix: false, key: "wrap-normal", properties: vec!["overflow-wrap"] });
    t.push(PropertyRule { prefix: false, key: "break-normal", properties: vec!["overflow-wrap", "word-break"] });
    t.push(PropertyRule { prefix: false, key: "break-words", properties: vec!["overflow-wrap", "word-break"] });
    t.push(PropertyRule { prefix: false, key: "break-all", properties: vec!["overflow-wrap", "word-break"] });
    t.push(PropertyRule { prefix: false, key: "break-keep", properties: vec!["overflow-wrap", "word-break"] });
    t.push(PropertyRule { prefix: false, key: "border-solid", properties: vec!["border-style"] });
    t.push(PropertyRule { prefix: false, key: "border-dashed", properties: vec!["border-style"] });
    t.push(PropertyRule { prefix: false, key: "border-dotted", properties: vec!["border-style"] });
    t.push(PropertyRule { prefix: false, key: "border-double", properties: vec!["border-style"] });
    t.push(PropertyRule { prefix: false, key: "border-hidden", properties: vec!["border-style"] });
    t.push(PropertyRule { prefix: false, key: "border-none", properties: vec!["border-style"] });
    t.push(PropertyRule { prefix: false, key: "divide-solid", properties: vec!["border-style"] });
    t.push(PropertyRule { prefix: false, key: "divide-dashed", properties: vec!["border-style"] });
    t.push(PropertyRule { prefix: false, key: "divide-dotted", properties: vec!["border-style"] });
    t.push(PropertyRule { prefix: false, key: "divide-double", properties: vec!["border-style"] });
    t.push(PropertyRule { prefix: false, key: "divide-none", properties: vec!["border-style"] });
    t.push(PropertyRule { prefix: false, key: "decoration-solid", properties: vec!["text-decoration-style"] });
    t.push(PropertyRule { prefix: false, key: "decoration-double", properties: vec!["text-decoration-style"] });
    t.push(PropertyRule { prefix: false, key: "decoration-dotted", properties: vec!["text-decoration-style"] });
    t.push(PropertyRule { prefix: false, key: "decoration-dashed", properties: vec!["text-decoration-style"] });
    t.push(PropertyRule { prefix: false, key: "decoration-wavy", properties: vec!["text-decoration-style"] });
    t.push(PropertyRule { prefix: false, key: "decoration-auto", properties: vec!["text-decoration-thickness"] });
    t.push(PropertyRule { prefix: false, key: "decoration-from-font", properties: vec!["text-decoration-thickness"] });
    t.push(PropertyRule { prefix: false, key: "decoration-clone", properties: vec!["box-decoration-break"] });
    t.push(PropertyRule { prefix: false, key: "decoration-slice", properties: vec!["box-decoration-break"] });
    t.push(PropertyRule { prefix: false, key: "outline-solid", properties: vec!["outline-style"] });
    t.push(PropertyRule { prefix: false, key: "outline-dashed", properties: vec!["outline-style"] });
    t.push(PropertyRule { prefix: false, key: "outline-dotted", properties: vec!["outline-style"] });
    assert(rule_views(t@) =~~= static_rules_8());
    t
}

#[verifier::opaque]
pub open spec fn static_rules_9() -> Seq<RuleModel> {
    seq![
        (false, "outline-double"@, seq!["outline-style"@]),
        (false, "outline-none"@, seq!["outline-style"@]),
        (false, "outline-hidden"@, seq!["outline-style"@]),
        (false, "text-left"@, seq!["text-align"@]),
        (false, "text-center"@, seq!["text-align"@]),
        (false, "text-right"@, seq!["text-align"@]),
        (false, "text-justify"@, seq!["text-align"@]),
        (false, "text-start"@, seq!["text-align"@]),
        (false, "text-end"@, seq!["text-align"@]),
        (false, "underline"@, seq!["text-decoration-line"@]),
        (false, "overline"@, seq!["text-decoration-line"@]),
        (false, "line-through"@, seq!["text-decoration-line"@]),
        (false, "no-underline"@, seq!["text-decoration-line"@]),
        (false, "resize"@, seq!["resize"@]),
        (false, "order-none"@, seq!["order"@]),
        (true, "m-"@, seq!["margin"@]),
        (false, "m-auto"@, seq!["margin"@]),
        (true, "mx-"@, seq!["margin-inline"@]),
        (true, "my-"@, seq!["margin-block"@]),
        (true, "mt-"@, seq!["margin-top"@]),
        (true, "mr-"@, seq!["margin-right"@]),
        (true, "mb-"@, seq!["margin-bottom"@]),
        (true, "ml-"@, seq!["margin-left"@]),
        (true, "p-"@, seq!["padding"@]),
        (true, "px-"@, seq!["padding-inline"@]),
        (true, "py-"@, seq!["padding-block"@]),
        (true, "pt-"@, seq!["padding-top"@]),
        (true, "pr-"@, seq!["padding-right"@]),
        (true, "pb-"@, seq!["padding-bottom"@]),
        (true, "pl-"@, seq!["padding-left"@]),
        (true, "w-"@, seq!["width"@]),
        (true, "h-"@, seq!["height"@]),
        (true, "min-w-"@, seq!["min-width"@]),
        (true, "max-w-"@, seq!["max-width"@]),
        (true, "min-h-"@, seq!["min-height"@]),
        (true, "max-h-"@, seq!["max-height"@]),
        (true, "size-"@, seq!["width"@, "height"@]),
        (true, "bg-"@, seq!["background-color"@]),
        (true, "border-"@, seq!["border-style"@]),
        (true, "rounded-"@, seq!["border-radius"@])
    ]
}

#[verifier::spinoff_prover]
#[verifier::rlimit(80)]
fn static_table_9() -> (r: Vec<PropertyRule>)
    ensures
        rule_views(r@) == static_rules_9(),
{
    reveal(static_rules_9);
    let mut t: Vec<PropertyRule> = Vec::new();
    t.push(PropertyRule { prefix: false, key: "outline-double", properties: vec!["outline-style"] });
    t.push(PropertyRule { prefix: false, key: "outline-none", properties: vec!["outline-style"] });
    t.push(PropertyRule { prefix: false, key: "outline-hidden", properties: vec!["outline-style"] });
    t.push(PropertyRule { prefix: false, key: "text-left", properties: vec!["text-align"] });
    t.push(PropertyRule { prefix: false, key: "text-center", properties: vec!["text-align"] });
    t.push(PropertyRule { prefix: false, key: "text-right", properties: vec!["text-align"] });
    t.push(PropertyRule { prefix: false, key: "text-justify", properties: vec!["text-align"] });
    t.push(PropertyRule { prefix: false, key: "text-start", properties: vec!["text-align"] });
    t.push(PropertyRule { prefix: false, key: "text-end", properties: vec!["text-align"] });
    t.push(PropertyRule { prefix: false, key: "underline", properties: vec!["text-decoration-line"] });
    t.push(PropertyRule { prefix: false, key: "overline", properties: vec!["text-decoration-line"] });
    t.push(PropertyRule { prefix: false, key: "line-through", properties: vec!["text-decoration-line"] });
    t.push(PropertyRule { prefix: false, key: "no-underline", properties: vec!["text-decoration-line"] });
    t.push(PropertyRule { prefix: false, key: "resize", properties: vec!["resize"] });
    t.push(PropertyRule { prefix: false, key: "order-none", properties: vec!["order"] });
    t.push(PropertyRule { prefix: true, key: "m-", properties: vec!["margin"] });
    t.push(PropertyRule { prefix: false, key: "m-auto", properties: vec!["margin"] });
    t.push(PropertyRule { prefix: true, key: "mx-", properties: vec!["margin-inline"] });
    t.push(PropertyRule { prefix: true, key: "my-", properties: vec!["margin-block"] });
    t.push(PropertyRule { prefix: true, key: "mt-", properties: vec!["margin-top"] });
    t.push(PropertyRule { prefix: true, key: "mr-", properties: vec!["margin-right"] });
    t.push(PropertyRule { prefix: true, key: "mb-", properties: vec!["margin-bottom"] });
    t.push(PropertyRule { prefix: true, key: "ml-", properties: vec!["margin-left"] });
    t.push(PropertyRule { prefix: true, key: "p-", properties: vec!["padding"] });
    t.push(PropertyRule { prefix: true, key: "px-", properties: vec!["padding-inline"] });
    t.push(PropertyRule { prefix: true, key: "py-", properties: vec!["padding-block"] });
    t.push(PropertyRule { prefix: true, key: "pt-", properties: vec!["padding-top"] });
    t.push(PropertyRule { prefix: true, key: "pr-", properties: vec!["padding-right"] });
    t.push(PropertyRule { prefix: true, key: "pb-", properties: vec!["padding-bottom"] });
    t.push(PropertyRule { prefix: true, key: "pl-", properties: vec!["padding-left"] });
    t.push(PropertyRule { prefix: true, key: "w-", properties: vec!["width"] });
    t.push(PropertyRule { prefix: true, key: "h-", properties: vec!["height"] });
    t.push(PropertyRule { prefix: true, key: "min-w-", properties: vec!["min-width"] });
    t.push(PropertyRule { prefix: true, key: "max-w-", properties: vec!["max-width"] });
    t.push(PropertyRule { prefix: true, key: "min-h-", properties: vec!["min-height"] });
    t.push(PropertyRule { prefix: true, key: "max-h-", properties: vec!["max-height"] });
    t.push(PropertyRule { prefix: true, key: "size-", properties: vec!["width", "height"] });
    t.push(PropertyRule { prefix: true, key: "bg-", properties: vec!["background-color"] });
    t.push(PropertyRule { prefix: true, key: "border-", properties: vec!["border-style"] });
    t.push(PropertyRule { prefix: true, key: "rounded-", properties: vec!["border-radius"] });
    assert(rule_views(t@) =~~= static_rules_9());
    t
}

/// The rules of the static utilities, first match wins.
pub open spec fn static_rules() -> Seq<RuleModel> {
    static_rules_0() + (static_rules_1() + (static_rules_2() + (static_rules_3() + (static_rules_4() + (static_rules_5() + (static_rules_6() + (static_rules_7() + (static_rules_8() + (static_rules_9())))))))))
}

/// The CSS properties a static utility sets (a leading `-` ignored): those of the first static
/// rule that matches it, or none.
pub open spec fn spec_static_properties(root: Seq<char>) -> Seq<Seq<char>> {
    match first_rule(static_rules(), positive_root(root)) {
        Some(p) => p,
        None => Seq::empty(),
    }
}

pub fn static_properties(root: &str) -> (r: Vec<String>)
    ensures
        texts(r@) == spec_static_properties(root@),
{
    let root = strip_negative(root);
    let ghost key = root@;
    proof {
        lemma_first_rule_concat(static_rules_0(), static_rules_1() + (static_rules_2() + (static_rules_3() + (static_rules_4() + (static_rules_5() + (static_rules_6() + (static_rules_7() + (static_rules_8() + (static_rules_9())))))))), key, 0);
        lemma_first_rule_concat(static_rules_1(), static_rules_2() + (static_rules_3() + (static_rules_4() + (static_rules_5() + (static_rules_6() + (static_rules_7() + (static_rules_8() + (static_rules_9()))))))), key, 0);
        lemma_first_rule_concat(static_rules_2(), static_rules_3() + (static_rules_4() + (static_rules_5() + (static_rules_6() + (static_rules_7() + (static_rules_8() + (static_rules_9())))))), key, 0);
        lemma_first_rule_concat(static_rules_3(), static_rules_4() + (static_rules_5() + (static_rules_6() + (static_rules_7() + (static_rules_8() + (static_rules_9()))))), key, 0);
        lemma_first_rule_concat(static_rules_4(), static_rules_5() + (static_rules_6() + (static_rules_7() + (static_rules_8() + (static_rules_9())))), key, 0);
        lemma_first_rule_concat(static_rules_5(), static_rules_6() + (static_rules_7() + (static_rules_8() + (static_rules_9()))), key, 0);
        lemma_first_rule_concat(static_rules_6(), static_rules_7() + (static_rules_8() + (static_rules_9())), key, 0);
        lemma_first_rule_concat(static_rules_7(), static_rules_8() + (static_rules_9()), key, 0);
        lemma_first_rule_concat(static_rules_8(), static_rules_9(), key, 0);
    }
    if let Some(p) = lookup_rules(&static_table_0(), root) {
        return p;
    }
    if let Some(p) = lookup_rules(&static_table_1(), root) {
        return p;
    }
    if let Some(p) = lookup_rules(&static_table_2(), root) {
        return p;
    }
    if let Some(p) = lookup_rules(&static_table_3(), root) {
        return p;
    }
    if let Some(p) = lookup_rules(&static_table_4(), root) {
        return p;
    }
    if let Some(p) = lookup_rules(&static_table_5(), root) {
        return p;
    }
    if let Some(p) = lookup_rules(&static_table_6(), root) {
        return p;
    }
    if let Some(p) = lookup_rules(&static_table_7(), root) {
        return p;
    }
    if let Some(p) = lookup_rules(&static_table_8(), root) {
        return p;
    }
    if let Some(p) = lookup_rules(&static_table_9(), root) {
        return p;
    }
    Vec::new()
}

/// The properties a color sets on a root that takes a color or a width.
#[verifier::opaque]
pub open spec fn color_rules() -> Seq<RuleModel> {
    seq![
        (false, "border"@, seq!["border-color"@]),
        (false, "border-x"@, seq!["border-inline-color"@]),
        (false, "border-y"@, seq!["border-block-color"@]),
        (false, "border-s"@, seq!["border-inline-start-color"@]),
        (false, "border-e"@, seq!["border-inline-end-color"@]),
        (false, "border-bs"@, seq!["border-block-start-color"@]),
        (false, "border-be"@, seq!["border-block-end-color"@]),
        (false, "border-t"@, seq!["border-top-color"@]),
        (false, "border-r"@, seq!["border-right-color"@]),
        (false, "border-b"@, seq!["border-bottom-color"@]),
        (false, "border-l"@, seq!["border-left-color"@]),
        (true, "divide"@, seq!["border-color"@]),
        (false, "ring"@, seq!["--tw-ring-color"@]),
        (false, "ring-offset"@, seq!["--tw-ring-offset-color"@]),
        (false, "outline"@, seq!["outline-color"@]),
        (false, "decoration"@, seq!["text-decoration-color"@]),
        (false, "stroke"@, seq!["stroke"@])
    ]
}

#[verifier::spinoff_prover]
#[verifier::rlimit(80)]
fn color_rules_table() -> (r: Vec<PropertyRule>)
    ensures
        rule_views(r@) == color_rules(),
{
    reveal(color_rules);
    let mut t: Vec<PropertyRule> = Vec::new();
    t.push(PropertyRule { prefix: false, key: "border", properties: vec!["border-color"] });
    t.push(PropertyRule { prefix: false, key: "border-x", properties: vec!["border-inline-color"] });
    t.push(PropertyRule { prefix: false, key: "border-y", properties: vec!["border-block-color"] });
    t.push(PropertyRule { prefix: false, key: "border-s", properties: vec!["border-inline-start-color"] });
    t.push(PropertyRule { prefix: false, key: "border-e", properties: vec!["border-inline-end-color"] });
    t.push(PropertyRule { prefix: false, key: "border-bs", properties: vec!["border-block-start-color"] });
    t.push(PropertyRule { prefix: false, key: "border-be", properties: vec!["border-block-end-color"] });
    t.push(PropertyRule { prefix: false, key: "border-t", properties: vec!["border-top-color"] });
    t.push(PropertyRule { prefix: false, key: "border-r", properties: vec!["border-right-color"] });
    t.push(PropertyRule { prefix: false, key: "border-b", properties: vec!["border-bottom-color"] });
    t.push(PropertyRule { prefix: false, key: "border-l", properties: vec!["border-left-color"] });
    t.push(PropertyRule { prefix: true, key: "divide", properties: vec!["border-color"] });
    t.push(PropertyRule { prefix: false, key: "ring", properties: vec!["--tw-ring-color"] });
    t.push(PropertyRule { prefix: false, key: "ring-offset", properties: vec!["--tw-ring-offset-color"] });
    t.push(PropertyRule { prefix: false, key: "outline", properties: vec!["outline-color"] });
    t.push(PropertyRule { prefix: false, key: "decoration", properties: vec!["text-decoration-color"] });
    t.push(PropertyRule { prefix: false, key: "stroke", properties: vec!["stroke"] });
    assert(rule_views(t@) =~~= color_rules());
    t
}

/// The properties a width sets on a root that takes a color or a width.
#[verifier::opaque]
pub open spec fn width_rules() -> Seq<RuleModel> {
    seq![
        (false, "border"@, seq!["border-style"@, "border-width"@]),
        (false, "divide"@, seq!["border-width"@]),
        (false, "border-x"@, seq!["border-inline-style"@, "border-inline-width"@]),
        (false, "border-y"@, seq!["border-block-style"@, "border-block-width"@]),
        (false, "divide-x"@, seq!["--tw-divide-x-reverse"@, "border-inline-style"@, "border-inline-start-width"@, "border-inline-end-width"@]),
        (false, "divide-y"@, seq!["--tw-divide-y-reverse"@, "border-bottom-style"@, "border-top-style"@, "border-top-width"@, "border-bottom-width"@]),
        (false, "border-s"@, seq!["border-inline-start-style"@, "border-inline-start-width"@]),
        (false, "border-e"@, seq!["border-inline-end-style"@, "border-inline-end-width"@]),
        (false, "border-bs"@, seq!["border-block-start-style"@, "border-block-start-width"@]),
        (false, "border-be"@, seq!["border-block-end-style"@, "border-block-end-width"@]),
        (false, "border-t"@, seq!["border-top-style"@, "border-top-width"@]),
        (false, "border-r"@, seq!["border-right-style"@, "border-right-width"@]),
        (false, "border-b"@, seq!["border-bottom-style"@, "border-bottom-width"@]),
        (false, "border-l"@, seq!["border-left-style"@, "border-left-width"@]),
        (false, "ring"@, seq!["--tw-ring-shadow"@, "box-shadow"@]),
        (false, "ring-offset"@, seq!["--tw-ring-offset-width"@, "--tw-ring-offset-shadow"@]),
        (false, "outline"@, seq!["outline-style"@, "outline-width"@]),
        (false, "decoration"@, seq!["text-decoration-thickness"@]),
        (false, "stroke"@, seq!["stroke-width"@])
    ]
}

#[verifier::spinoff_prover]
#[verifier::rlimit(80)]
fn width_rules_table() -> (r: Vec<PropertyRule>)
    ensures
        rule_views(r@) == width_rules(),
{
    reveal(width_rules);
    let mut t: Vec<PropertyRule> = Vec::new();
    t.push(PropertyRule { prefix: false, key: "border", properties: vec!["border-style", "border-width"] });
    t.push(PropertyRule { prefix: false, key: "divide", properties: vec!["border-width"] });
    t.push(PropertyRule { prefix: false, key: "border-x", properties: vec!["border-inline-style", "border-inline-width"] });
    t.push(PropertyRule { prefix: false, key: "border-y", properties: vec!["border-block-style", "border-block-width"] });
    t.push(PropertyRule { prefix: false, key: "divide-x", properties: vec!["--tw-divide-x-reverse", "border-inline-style", "border-inline-start-width", "border-inline-end-width"] });
    t.push(PropertyRule { prefix: false, key: "divide-y", properties: vec!["--tw-divide-y-reverse", "border-bottom-style", "border-top-style", "border-top-width", "border-bottom-width"] });
    t.push(PropertyRule { prefix: false, key: "border-s", properties: vec!["border-inline-start-style", "border-inline-start-width"] });
    t.push(PropertyRule { prefix: false, key: "border-e", properties: vec!["border-inline-end-style", "border-inline-end-width"] });
    t.push(PropertyRule { prefix: false, key: "border-bs", properties: vec!["border-block-start-style", "border-block-start-width"] });
    t.push(PropertyRule { prefix: false, key: "border-be", properties: vec!["border-block-end-style", "border-block-end-width"] });
    t.push(PropertyRule { prefix: false, key: "border-t", properties: vec!["border-top-style", "border-top-width"] });
    t.push(PropertyRule { prefix: false, key: "border-r", properties: vec!["border-right-style", "border-right-width"] });
    t.push(PropertyRule { prefix: false, key: "border-b", properties: vec!["border-bottom-style", "border-bottom-width"] });
    t.push(PropertyRule { prefix: false, key: "border-l", properties: vec!["border-left-style", "border-left-width"] });
    t.push(PropertyRule { prefix: false, key: "ring", properties: vec!["--tw-ring-shadow", "box-shadow"] });
    t.push(PropertyRule { prefix: false, key: "ring-offset", properties: vec!["--tw-ring-offset-width", "--tw-ring-offset-shadow"] });
    t.push(PropertyRule { prefix: false, key: "outline", properties: vec!["outline-style", "outline-width"] });
    t.push(PropertyRule { prefix: false, key: "decoration", properties: vec!["text-decoration-thickness"] });
    t.push(PropertyRule { prefix: false, key: "stroke", properties: vec!["stroke-width"] });
    assert(rule_views(t@) =~~= width_rules());
    t
}

/// The properties of the mask edge utilities.
#[verifier::opaque]
pub open spec fn mask_edge_rules() -> Seq<RuleModel> {
    seq![
        (false, "mask-x-from"@, seq!["mask-image"@, "mask-composite"@, "--tw-mask-linear"@, "--tw-mask-right"@, "--tw-mask-right-from-position"@, "--tw-mask-left"@, "--tw-mask-left-from-position"@]),
        (false, "mask-x-to"@, seq!["mask-image"@, "mask-composite"@, "--tw-mask-linear"@, "--tw-mask-right"@, "--tw-mask-right-to-position"@, "--tw-mask-left"@, "--tw-mask-left-to-position"@]),
        (false, "mask-y-from"@, seq!["mask-image"@, "mask-composite"@, "--tw-mask-linear"@, "--tw-mask-top"@, "--tw-mask-top-from-position"@, "--tw-mask-bottom"@, "--tw-mask-bottom-from-position"@]),
        (false, "mask-y-to"@, seq!["mask-image"@, "mask-composite"@, "--tw-mask-linear"@, "--tw-mask-top"@, "--tw-mask-top-to-position"@, "--tw-mask-bottom"@, "--tw-mask-bottom-to-position"@]),
        (false, "mask-t-from"@, seq!["mask-image"@, "mask-composite"@, "--tw-mask-linear"@, "--tw-mask-top"@, "--tw-mask-top-from-position"@]),
        (false, "mask-t-to"@, seq!["mask-image"@, "mask-composite"@, "--tw-mask-linear"@, "--tw-mask-top"@, "--tw-mask-top-to-position"@]),
        (false, "mask-r-from"@, seq!["mask-image"@, "mask-composite"@, "--tw-mask-linear"@, "--tw-mask-right"@, "--tw-mask-right-from-position"@]),
        (false, "mask-r-to"@, seq!["mask-image"@, "mask-composite"@, "--tw-mask-linear"@, "--tw-mask-right"@, "--tw-mask-right-to-position"@]),
        (false, "mask-b-from"@, seq!["mask-image"@, "mask-composite"@, "--tw-mask-linear"@, "--tw-mask-bottom"@, "--tw-mask-bottom-from-position"@]),
        (false, "mask-b-to"@, seq!["mask-image"@, "mask-composite"@, "--tw-mask-linear"@, "--tw-mask-bottom"@, "--tw-mask-bottom-to-position"@]),
        (false, "mask-l-from"@, seq!["mask-image"@, "mask-composite"@, "--tw-mask-linear"@, "--tw-mask-left"@, "--tw-mask-left-from-position"@]),
        (false, "mask-l-to"@, seq!["mask-image"@, "mask-composite"@, "--tw-mask-linear"@, "--tw-mask-left"@, "--tw-mask-left-to-position"@])
    ]
}

#[verifier::spinoff_prover]
#[verifier::rlimit(80)]
fn mask_edge_rules_table() -> (r: Vec<PropertyRule>)
    ensures
        rule_views(r@) == mask_edge_rules(),
{
    reveal(mask_edge_rules);
    let mut t: Vec<PropertyRule> = Vec::new();
    t.push(PropertyRule { prefix: false, key: "mask-x-from", properties: vec!["mask-image", "mask-composite", "--tw-mask-linear", "--tw-mask-right", "--tw-mask-right-from-position", "--tw-mask-left", "--tw-mask-left-from-position"] });
    t.push(PropertyRule { prefix: false, key: "mask-x-to", properties: vec!["mask-image", "mask-composite", "--tw-mask-linear", "--tw-mask-right", "--tw-mask-right-to-position", "--tw-mask-left", "--tw-mask-left-to-position"] });
    t.push(PropertyRule { prefix: false, key: "mask-y-from", properties: vec!["mask-image", "mask-composite", "--tw-mask-linear", "--tw-mask-top", "--tw-mask-top-from-position", "--tw-mask-bottom", "--tw-mask-bottom-from-position"] });
    t.push(PropertyRule { prefix: false, key: "mask-y-to", properties: vec!["mask-image", "mask-composite", "--tw-mask-linear", "--tw-mask-top", "--tw-mask-top-to-position", "--tw-mask-bottom", "--tw-mask-bottom-to-position"] });
    t.push(PropertyRule { prefix: false, key: "mask-t-from", properties: vec!["mask-image", "mask-composite", "--tw-mask-linear", "--tw-mask-top", "--tw-mask-top-from-position"] });
    t.push(PropertyRule { prefix: false, key: "mask-t-to", properties: vec!["mask-image", "mask-composite", "--tw-mask-linear", "--tw-mask-top", "--tw-mask-top-to-position"] });
    t.push(PropertyRule { prefix: false, key: "mask-r-from", properties: vec!["mask-image", "mask-composite", "--tw-mask-linear", "--tw-mask-right", "--tw-mask-right-from-position"] });
    t.push(PropertyRule { prefix: false, key: "mask-r-to", properties: vec!["mask-image", "mask-composite", "--tw-mask-linear", "--tw-mask-right", "--tw-mask-right-to-position"] });
    t.push(PropertyRule { prefix: false, key: "mask-b-from", properties: vec!["mask-image", "mask-composite", "--tw-mask-linear", "--tw-mask-bottom", "--tw-mask-bottom-from-position"] });
    t.push(PropertyRule { prefix: false, key: "mask-b-to", properties: vec!["mask-image", "mask-composite", "--tw-mask-linear", "--tw-mask-bottom", "--tw-mask-bottom-to-position"] });
    t.push(PropertyRule { prefix: false, key: "mask-l-from", properties: vec!["mask-image", "mask-composite", "--tw-mask-linear", "--tw-mask-left", "--tw-mask-left-from-position"] });
    t.push(PropertyRule { prefix: false, key: "mask-l-to", properties: vec!["mask-image", "mask-composite", "--tw-mask-linear", "--tw-mask-left", "--tw-mask-left-to-position"] });
    assert(rule_views(t@) =~~= mask_edge_rules());
    t
}

/// A part of the functional roots' properties, in order.
#[verifier::opaque]
pub open spec fn functional_rules_0() -> Seq<RuleModel> {
    seq![
        (false, "inset"@, seq!["inset"@]),
        (false, "inset-x"@, seq!["inset-inline"@]),
        (false, "inset-y"@, seq!["inset-block"@]),
        (false, "inset-s"@, seq!["inset-inline-start"@]),
        (false, "start"@, seq!["inset-inline-start"@]),
        (false, "inset-e"@, seq!["inset-inline-end"@]),
        (false, "end"@, seq!["inset-inline-end"@]),
        (false, "inset-bs"@, seq!["inset-block-start"@]),
        (false, "inset-be"@, seq!["inset-block-end"@]),
        (false, "top"@, seq!["top"@]),
        (false, "right"@, seq!["right"@]),
        (false, "bottom"@, seq!["bottom"@]),
        (false, "left"@, seq!["left"@]),
        (false, "m"@, seq!["margin"@]),
        (false, "mx"@, seq!["margin-inline"@]),
        (false, "my"@, seq!["margin-block"@]),
        (false, "ms"@, seq!["margin-inline-start"@]),
        (false, "me"@, seq!["margin-inline-end"@]),
        (false, "mbs"@, seq!["margin-block-start"@]),
        (false, "mbe"@, seq!["margin-block-end"@]),
        (false, "mt"@, seq!["margin-top"@]),
        (false, "mr"@, seq!["margin-right"@]),
        (false, "mb"@, seq!["margin-bottom"@]),
        (false, "ml"@, seq!["margin-left"@]),
        (false, "p"@, seq!["padding"@]),
        (false, "px"@, seq!["padding-inline"@]),
        (false, "py"@, seq!["padding-block"@]),
        (false, "ps"@, seq!["padding-inline-start"@]),
        (false, "pe"@, seq!["padding-inline-end"@]),
        (false, "pbs"@, seq!["padding-block-start"@]),
        (false, "pbe"@, seq!["padding-block-end"@]),
        (false, "pt"@, seq!["padding-top"@]),
        (false, "pr"@, seq!["padding-right"@]),
        (false, "pb"@, seq!["padding-bottom"@]),
        (false, "pl"@, seq!["padding-left"@]),
        (false, "size"@, seq!["width"@, "height"@]),
        (false, "w"@, seq!["width"@]),
        (false, "h"@, seq!["height"@]),
        (false, "inline"@, seq!["inline-size"@]),
        (false, "block"@, seq!["block-size"@]),
        (false, "min-w"@, seq!["min-width"@]),
        (false, "max-w"@, seq!["max-width"@]),
        (false, "min-h"@, seq!["min-height"@]),
        (false, "max-h"@, seq!["max-height"@]),
        (false, "min-inline"@, seq!["min-inline-size"@])
    ]
}

#[verifier::spinoff_prover]
#[verifier::rlimit(80)]
fn functional_rules_0_table() -> (r: Vec<PropertyRule>)
    ensures
        rule_views(r@) == functional_rules_0(),
{
    reveal(functional_rules_0);
    let mut t: Vec<PropertyRule> = Vec::new();
    t.push(PropertyRule { prefix: false, key: "inset", properties: vec!["inset"] });
    t.push(PropertyRule { prefix: false, key: "inset-x", properties: vec!["inset-inline"] });
    t.push(PropertyRule { prefix: false, key: "inset-y", properties: vec!["inset-block"] });
    t.push(PropertyRule { prefix: false, key: "inset-s", properties: vec!["inset-inline-start"] });
    t.push(PropertyRule { prefix: false, key: "start", properties: vec!["inset-inline-start"] });
    t.push(PropertyRule { prefix: false, key: "inset-e", properties: vec!["inset-inline-end"] });
    t.push(PropertyRule { prefix: false, key: "end", properties: vec!["inset-inline-end"] });
    t.push(PropertyRule { prefix: false, key: "inset-bs", properties: vec!["inset-block-start"] });
    t.push(PropertyRule { prefix: false, key: "inset-be", properties: vec!["inset-block-end"] });
    t.push(PropertyRule { prefix: false, key: "top", properties: vec!["top"] });
    t.push(PropertyRule { prefix: false, key: "right", properties: vec!["right"] });
    t.push(PropertyRule { prefix: false, key: "bottom", properties: vec!["bottom"] });
    t.push(PropertyRule { prefix: false, key: "left", properties: vec!["left"] });
    t.push(PropertyRule { prefix: false, key: "m", properties: vec!["margin"] });
    t.push(PropertyRule { prefix: false, key: "mx", properties: vec!["margin-inline"] });
    t.push(PropertyRule { prefix: false, key: "my", properties: vec!["margin-block"] });
    t.push(PropertyRule { prefix: false, key: "ms", properties: vec!["margin-inline-start"] });
    t.push(PropertyRule { prefix: false, key: "me", properties: vec!["margin-inline-end"] });
    t.push(PropertyRule { prefix: false, key: "mbs", properties: vec!["margin-block-start"] });
    t.push(PropertyRule { prefix: false, key: "mbe", properties: vec!["margin-block-end"] });
    t.push(PropertyRule { prefix: false, key: "mt", properties: vec!["margin-top"] });
    t.push(PropertyRule { prefix: false, key: "mr", properties: vec!["margin-right"] });
    t.push(PropertyRule { prefix: false, key: "mb", properties: vec!["margin-bottom"] });
    t.push(PropertyRule { prefix: false, key: "ml", properties: vec!["margin-left"] });
    t.push(PropertyRule { prefix: false, key: "p", properties: vec!["padding"] });
    t.push(PropertyRule { prefix: false, key: "px", properties: vec!["padding-inline"] });
    t.push(PropertyRule { prefix: false, key: "py", properties: vec!["padding-block"] });
    t.push(PropertyRule { prefix: false, key: "ps", properties: vec!["padding-inline-start"] });
    t.push(PropertyRule { prefix: false, key: "pe", properties: vec!["padding-inline-end"] });
    t.push(PropertyRule { prefix: false, key: "pbs", properties: vec!["padding-block-start"] });
    t.push(PropertyRule { prefix: false, key: "pbe", properties: vec!["padding-block-end"] });
    t.push(PropertyRule { prefix: false, key: "pt", properties: vec!["padding-top"] });
    t.push(PropertyRule { prefix: false, key: "pr", properties: vec!["padding-right"] });
    t.push(PropertyRule { prefix: false, key: "pb", properties: vec!["padding-bottom"] });
    t.push(PropertyRule { prefix: false, key: "pl", properties: vec!["padding-left"] });
    t.push(PropertyRule { prefix: false, key: "size", properties: vec!["width", "height"] });
    t.push(PropertyRule { prefix: false, key: "w", properties: vec!["width"] });
    t.push(PropertyRule { prefix: false, key: "h", properties: vec!["height"] });
    t.push(PropertyRule { prefix: false, key: "inline", properties: vec!["inline-size"] });
    t.push(PropertyRule { prefix: false, key: "block", properties: vec!["block-size"] });
    t.push(PropertyRule { prefix: false, key: "min-w", properties: vec!["min-width"] });
    t.push(PropertyRule { prefix: false, key: "max-w", properties: vec!["max-width"] });
    t.push(PropertyRule { prefix: false, key: "min-h", properties: vec!["min-height"] });
    t.push(PropertyRule { prefix: false, key: "max-h", properties: vec!["max-height"] });
    t.push(PropertyRule { prefix: false, key: "min-inline", properties: vec!["min-inline-size"] });
    assert(rule_views(t@) =~~= functional_rules_0());
    t
}

/// A part of the functional roots' properties, in order.
#[verifier::opaque]
pub open spec fn functional_rules_1() -> Seq<RuleModel> {
    seq![
        (false, "max-inline"@, seq!["max-inline-size"@]),
        (false, "min-block"@, seq!["min-block-size"@]),
        (false, "max-block"@, seq!["max-block-size"@]),
        (false, "scroll-m"@, seq!["scroll-margin"@]),
        (false, "scroll-mx"@, seq!["scroll-margin-inline"@]),
        (false, "scroll-my"@, seq!["scroll-margin-block"@]),
        (false, "scroll-ms"@, seq!["scroll-margin-inline-start"@]),
        (false, "scroll-me"@, seq!["scroll-margin-inline-end"@]),
        (false, "scroll-mbs"@, seq!["scroll-margin-block-start"@]),
        (false, "scroll-mbe"@, seq!["scroll-margin-block-end"@]),
        (false, "scroll-mt"@, seq!["scroll-margin-top"@]),
        (false, "scroll-mr"@, seq!["scroll-margin-right"@]),
        (false, "scroll-mb"@, seq!["scroll-margin-bottom"@]),
        (false, "scroll-ml"@, seq!["scroll-margin-left"@]),
        (false, "scroll-p"@, seq!["scroll-padding"@]),
        (false, "scroll-px"@, seq!["scroll-padding-inline"@]),
        (false, "scroll-py"@, seq!["scroll-padding-block"@]),
        (false, "scroll-ps"@, seq!["scroll-padding-inline-start"@]),
        (false, "scroll-pe"@, seq!["scroll-padding-inline-end"@]),
        (false, "scroll-pbs"@, seq!["scroll-padding-block-start"@]),
        (false, "scroll-pbe"@, seq!["scroll-padding-block-end"@]),
        (false, "scroll-pt"@, seq!["scroll-padding-top"@]),
        (false, "scroll-pr"@, seq!["scroll-padding-right"@]),
        (false, "scroll-pb"@, seq!["scroll-padding-bottom"@]),
        (false, "scroll-pl"@, seq!["scroll-padding-left"@]),
        (false, "gap"@, seq!["gap"@]),
        (false, "gap-x"@, seq!["column-gap"@]),
        (false, "gap-y"@, seq!["row-gap"@]),
        (false, "col"@, seq!["grid-column"@]),
        (false, "col-span"@, seq!["grid-column"@]),
        (false, "col-start"@, seq!["grid-column-start"@]),
        (false, "col-end"@, seq!["grid-column-end"@]),
        (false, "row"@, seq!["grid-row"@]),
        (false, "row-span"@, seq!["grid-row"@]),
        (false, "row-start"@, seq!["grid-row-start"@]),
        (false, "row-end"@, seq!["grid-row-end"@]),
        (false, "auto-cols"@, seq!["grid-auto-columns"@]),
        (false, "auto-rows"@, seq!["grid-auto-rows"@]),
        (false, "grid-cols"@, seq!["grid-template-columns"@]),
        (false, "grid-rows"@, seq!["grid-template-rows"@]),
        (false, "place-content"@, seq!["place-content"@]),
        (false, "place-items"@, seq!["place-items"@]),
        (false, "content"@, seq!["--tw-content"@, "content"@]),
        (false, "items"@, seq!["align-items"@]),
        (false, "justify"@, seq!["justify-content"@])
    ]
}

#[verifier::spinoff_prover]
#[verifier::rlimit(80)]
fn functional_rules_1_table() -> (r: Vec<PropertyRule>)
    ensures
        rule_views(r@) == functional_rules_1(),
{
    reveal(functional_rules_1);
    let mut t: Vec<PropertyRule> = Vec::new();
    t.push(PropertyRule { prefix: false, key: "max-inline", properties: vec!["max-inline-size"] });
    t.push(PropertyRule { prefix: false, key: "min-block", properties: vec!["min-block-size"] });
    t.push(PropertyRule { prefix: false, key: "max-block", properties: vec!["max-block-size"] });
    t.push(PropertyRule { prefix: false, key: "scroll-m", properties: vec!["scroll-margin"] });
    t.push(PropertyRule { prefix: false, key: "scroll-mx", properties: vec!["scroll-margin-inline"] });
    t.push(PropertyRule { prefix: false, key: "scroll-my", properties: vec!["scroll-margin-block"] });
    t.push(PropertyRule { prefix: false, key: "scroll-ms", properties: vec!["scroll-margin-inline-start"] });
    t.push(PropertyRule { prefix: false, key: "scroll-me", properties: vec!["scroll-margin-inline-end"] });
    t.push(PropertyRule { prefix: false, key: "scroll-mbs", properties: vec!["scroll-margin-block-start"] });
    t.push(PropertyRule { prefix: false, key: "scroll-mbe", properties: vec!["scroll-margin-block-end"] });
    t.push(PropertyRule { prefix: false, key: "scroll-mt", properties: vec!["scroll-margin-top"] });
    t.push(PropertyRule { prefix: false, key: "scroll-mr", properties: vec!["scroll-margin-right"] });
    t.push(PropertyRule { prefix: false, key: "scroll-mb", properties: vec!["scroll-margin-bottom"] });
    t.push(PropertyRule { prefix: false, key: "scroll-ml", properties: vec!["scroll-margin-left"] });
    t.push(PropertyRule { prefix: false, key: "scroll-p", properties: vec!["scroll-padding"] });
    t.push(PropertyRule { prefix: false, key: "scroll-px", properties: vec!["scroll-padding-inline"] });
    t.push(PropertyRule { prefix: false, key: "scroll-py", properties: vec!["scroll-padding-block"] });
    t.push(PropertyRule { prefix: false, key: "scroll-ps", properties: vec!["scroll-padding-inline-start"] });
    t.push(PropertyRule { prefix: false, key: "scroll-pe", properties: vec!["scroll-padding-inline-end"] });
    t.push(PropertyRule { prefix: false, key: "scroll-pbs", properties: vec!["scroll-padding-block-start"] });
    t.push(PropertyRule { prefix: false, key: "scroll-pbe", properties: vec!["scroll-padding-block-end"] });
    t.push(PropertyRule { prefix: false, key: "scroll-pt", properties: vec!["scroll-padding-top"] });
    t.push(PropertyRule { prefix: false, key: "scroll-pr", properties: vec!["scroll-padding-right"] });
    t.push(PropertyRule { prefix: false, key: "scroll-pb", properties: vec!["scroll-padding-bottom"] });
    t.push(PropertyRule { prefix: false, key: "scroll-pl", properties: vec!["scroll-padding-left"] });
    t.push(PropertyRule { prefix: false, key: "gap", properties: vec!["gap"] });
    t.push(PropertyRule { prefix: false, key: "gap-x", properties: vec!["column-gap"] });
    t.push(PropertyRule { prefix: false, key: "gap-y", properties: vec!["row-gap"] });
    t.push(PropertyRule { prefix: false, key: "col", properties: vec!["grid-column"] });
    t.push(PropertyRule { prefix: false, key: "col-span", properties: vec!["grid-column"] });
    t.push(PropertyRule { prefix: false, key: "col-start", properties: vec!["grid-column-start"] });
    t.push(PropertyRule { prefix: false, key: "col-end", properties: vec!["grid-column-end"] });
    t.push(PropertyRule { prefix: false, key: "row", properties: vec!["grid-row"] });
    t.push(PropertyRule { prefix: false, key: "row-span", properties: vec!["grid-row"] });
    t.push(PropertyRule { prefix: false, key: "row-start", properties: vec!["grid-row-start"] });
    t.push(PropertyRule { prefix: false, key: "row-end", properties: vec!["grid-row-end"] });
    t.push(PropertyRule { prefix: false, key: "auto-cols", properties: vec!["grid-auto-columns"] });
    t.push(PropertyRule { prefix: false, key: "auto-rows", properties: vec!["grid-auto-rows"] });
    t.push(PropertyRule { prefix: false, key: "grid-cols", properties: vec!["grid-template-columns"] });
    t.push(PropertyRule { prefix: false, key: "grid-rows", properties: vec!["grid-template-rows"] });
    t.push(PropertyRule { prefix: false, key: "place-content", properties: vec!["place-content"] });
    t.push(PropertyRule { prefix: false, key: "place-items", properties: vec!["place-items"] });
    t.push(PropertyRule { prefix: false, key: "content", properties: vec!["--tw-content", "content"] });
    t.push(PropertyRule { prefix: false, key: "items", properties: vec!["align-items"] });
    t.push(PropertyRule { prefix: false, key: "justify", properties: vec!["justify-content"] });
    assert(rule_views(t@) =~~= functional_rules_1());
    t
}

/// A part of the functional roots' properties, in order.
#[verifier::opaque]
pub open spec fn functional_rules_2() -> Seq<RuleModel> {
    seq![
        (false, "justify-items"@, seq!["justify-items"@]),
        (false, "place-self"@, seq!["place-self"@]),
        (false, "self"@, seq!["align-self"@]),
        (false, "justify-self"@, seq!["justify-self"@]),
        (false, "rounded"@, seq!["border-radius"@]),
        (false, "rounded-t"@, seq!["border-top-left-radius"@, "border-top-right-radius"@]),
        (false, "rounded-r"@, seq!["border-top-right-radius"@, "border-bottom-right-radius"@]),
        (false, "rounded-b"@, seq!["border-bottom-right-radius"@, "border-bottom-left-radius"@]),
        (false, "rounded-l"@, seq!["border-top-left-radius"@, "border-bottom-left-radius"@]),
        (false, "rounded-s"@, seq!["border-start-start-radius"@, "border-end-start-radius"@]),
        (false, "rounded-e"@, seq!["border-start-end-radius"@, "border-end-end-radius"@]),
        (false, "rounded-ss"@, seq!["border-start-start-radius"@]),
        (false, "rounded-se"@, seq!["border-start-end-radius"@]),
        (false, "rounded-es"@, seq!["border-end-start-radius"@]),
        (false, "rounded-ee"@, seq!["border-end-end-radius"@]),
        (false, "rounded-tl"@, seq!["border-top-left-radius"@]),
        (false, "rounded-tr"@, seq!["border-top-right-radius"@]),
        (false, "rounded-br"@, seq!["border-bottom-right-radius"@]),
        (false, "rounded-bl"@, seq!["border-bottom-left-radius"@]),
        (false, "divide-x"@, seq!["--tw-divide-x-reverse"@, "border-inline-style"@, "border-inline-start-width"@, "border-inline-end-width"@]),
        (false, "divide-y"@, seq!["--tw-divide-y-reverse"@, "border-bottom-style"@, "border-top-style"@, "border-top-width"@, "border-bottom-width"@]),
        (false, "border-x"@, seq!["border-inline-style"@, "border-inline-width"@]),
        (false, "border-y"@, seq!["border-block-style"@, "border-block-width"@]),
        (false, "space-x"@, seq!["--tw-space-x-reverse"@, "margin-inline-start"@, "margin-inline-end"@]),
        (false, "space-y"@, seq!["--tw-space-y-reverse"@, "margin-block-start"@, "margin-block-end"@]),
        (false, "list"@, seq!["list-style-type"@]),
        (false, "list-image"@, seq!["list-style-image"@]),
        (false, "line-clamp"@, seq!["overflow"@, "display"@, "-webkit-box-orient"@, "-webkit-line-clamp"@]),
        (false, "bg-linear"@, seq!["--tw-gradient-position"@, "background-image"@]),
        (false, "bg-conic"@, seq!["--tw-gradient-position"@, "background-image"@]),
        (false, "bg-radial"@, seq!["--tw-gradient-position"@, "background-image"@]),
        (false, "bg-position"@, seq!["background-position"@]),
        (false, "bg-size"@, seq!["background-size"@]),
        (false, "font"@, seq!["font-family"@]),
        (false, "font-stretch"@, seq!["font-stretch"@]),
        (false, "leading"@, seq!["--tw-leading"@, "line-height"@]),
        (false, "tracking"@, seq!["--tw-tracking"@, "letter-spacing"@]),
        (false, "underline-offset"@, seq!["text-underline-offset"@]),
        (false, "placeholder"@, seq!["color"@]),
        (false, "caret"@, seq!["caret-color"@]),
        (false, "accent"@, seq!["accent-color"@]),
        (false, "origin"@, seq!["transform-origin"@]),
        (false, "object"@, seq!["object-position"@]),
        (false, "perspective-origin"@, seq!["perspective-origin"@]),
        (false, "align"@, seq!["vertical-align"@])
    ]
}

#[verifier::spinoff_prover]
#[verifier::rlimit(80)]
fn functional_rules_2_table() -> (r: Vec<PropertyRule>)
    ensures
        rule_views(r@) == functional_rules_2(),
{
    reveal(functional_rules_2);
    let mut t: Vec<PropertyRule> = Vec::new();
    t.push(PropertyRule { prefix: false, key: "justify-items", properties: vec!["justify-items"] });
    t.push(PropertyRule { prefix: false, key: "place-self", properties: vec!["place-self"] });
    t.push(PropertyRule { prefix: false, key: "self", properties: vec!["align-self"] });
    t.push(PropertyRule { prefix: false, key: "justify-self", properties: vec!["justify-self"] });
    t.push(PropertyRule { prefix: false, key: "rounded", properties: vec!["border-radius"] });
    t.push(PropertyRule { prefix: false, key: "rounded-t", properties: vec!["border-top-left-radius", "border-top-right-radius"] });
    t.push(PropertyRule { prefix: false, key: "rounded-r", properties: vec!["border-top-right-radius", "border-bottom-right-radius"] });
    t.push(PropertyRule { prefix: false, key: "rounded-b", properties: vec!["border-bottom-right-radius", "border-bottom-left-radius"] });
    t.push(PropertyRule { prefix: false, key: "rounded-l", properties: vec!["border-top-left-radius", "border-bottom-left-radius"] });
    t.push(PropertyRule { prefix: false, key: "rounded-s", properties: vec!["border-start-start-radius", "border-end-start-radius"] });
    t.push(PropertyRule { prefix: false, key: "rounded-e", properties: vec!["border-start-end-radius", "border-end-end-radius"] });
    t.push(PropertyRule { prefix: false, key: "rounded-ss", properties: vec!["border-start-start-radius"] });
    t.push(PropertyRule { prefix: false, key: "rounded-se", properties: vec!["border-start-end-radius"] });
    t.push(PropertyRule { prefix: false, key: "rounded-es", properties: vec!["border-end-start-radius"] });
    t.push(PropertyRule { prefix: false, key: "rounded-ee", properties: vec!["border-end-end-radius"] });
    t.push(PropertyRule { prefix: false, key: "rounded-tl", properties: vec!["border-top-left-radius"] });
    t.push(PropertyRule { prefix: false, key: "rounded-tr", properties: vec!["border-top-right-radius"] });
    t.push(PropertyRule { prefix: false, key: "rounded-br", properties: vec!["border-bottom-right-radius"] });
    t.push(PropertyRule { prefix: false, key: "rounded-bl", properties: vec!["border-bottom-left-radius"] });
    t.push(PropertyRule { prefix: false, key: "divide-x", properties: vec!["--tw-divide-x-reverse", "border-inline-style", "border-inline-start-width", "border-inline-end-width"] });
    t.push(PropertyRule { prefix: false, key: "divide-y", properties: vec!["--tw-divide-y-reverse", "border-bottom-style", "border-top-style", "border-top-width", "border-bottom-width"] });
    t.push(PropertyRule { prefix: false, key: "border-x", properties: vec!["border-inline-style", "border-inline-width"] });
    t.push(PropertyRule { prefix: false, key: "border-y", properties: vec!["border-block-style", "border-block-width"] });
    t.push(PropertyRule { prefix: false, key: "space-x", properties: vec!["--tw-space-x-reverse", "margin-inline-start", "margin-inline-end"] });
    t.push(PropertyRule { prefix: false, key: "space-y", properties: vec!["--tw-space-y-reverse", "margin-block-start", "margin-block-end"] });
    t.push(PropertyRule { prefix: false, key: "list", properties: vec!["list-style-type"] });
    t.push(PropertyRule { prefix: false, key: "list-image", properties: vec!["list-style-image"] });
    t.push(PropertyRule { prefix: false, key: "line-clamp", properties: vec!["overflow", "display", "-webkit-box-orient", "-webkit-line-clamp"] });
    t.push(PropertyRule { prefix: false, key: "bg-linear", properties: vec!["--tw-gradient-position", "background-image"] });
    t.push(PropertyRule { prefix: false, key: "bg-conic", properties: vec!["--tw-gradient-position", "background-image"] });
    t.push(PropertyRule { prefix: false, key: "bg-radial", properties: vec!["--tw-gradient-position", "background-image"] });
    t.push(PropertyRule { prefix: false, key: "bg-position", properties: vec!["background-position"] });
    t.push(PropertyRule { prefix: false, key: "bg-size", properties: vec!["background-size"] });
    t.push(PropertyRule { prefix: false, key: "font", properties: vec!["font-family"] });
    t.push(PropertyRule { prefix: false, key: "font-stretch", properties: vec!["font-stretch"] });
    t.push(PropertyRule { prefix: false, key: "leading", properties: vec!["--tw-leading", "line-height"] });
    t.push(PropertyRule { prefix: false, key: "tracking", properties: vec!["--tw-tracking", "letter-spacing"] });
    t.push(PropertyRule { prefix: false, key: "underline-offset", properties: vec!["text-underline-offset"] });
    t.push(PropertyRule { prefix: false, key: "placeholder", properties: vec!["color"] });
    t.push(PropertyRule { prefix: false, key: "caret", properties: vec!["caret-color"] });
    t.push(PropertyRule { prefix: false, key: "accent", properties: vec!["accent-color"] });
    t.push(PropertyRule { prefix: false, key: "origin", properties: vec!["transform-origin"] });
    t.push(PropertyRule { prefix: false, key: "object", properties: vec!["object-position"] });
    t.push(PropertyRule { prefix: false, key: "perspective-origin", properties: vec!["perspective-origin"] });
    t.push(PropertyRule { prefix: false, key: "align", properties: vec!["vertical-align"] });
    assert(rule_views(t@) =~~= functional_rules_2());
    t
}

/// A part of the functional roots' properties, in order.
#[verifier::opaque]
pub open spec fn functional_rules_3() -> Seq<RuleModel> {
    seq![
        (false, "cursor"@, seq!["cursor"@]),
        (false, "contain"@, seq!["contain"@]),
        (false, "font-features"@, seq!["font-feature-settings"@]),
        (false, "will-change"@, seq!["will-change"@]),
        (false, "transform"@, seq!["transform"@]),
        (false, "filter"@, seq!["filter"@]),
        (false, "outline-offset"@, seq!["outline-offset"@]),
        (false, "@container"@, seq!["container-type"@]),
        (false, "transition"@, seq!["transition-property"@, "transition-timing-function"@, "transition-duration"@]),
        (false, "border-s"@, seq!["border-inline-start-style"@, "border-inline-start-width"@]),
        (false, "border-e"@, seq!["border-inline-end-style"@, "border-inline-end-width"@]),
        (false, "border-bs"@, seq!["border-block-start-style"@, "border-block-start-width"@]),
        (false, "border-be"@, seq!["border-block-end-style"@, "border-block-end-width"@]),
        (false, "border-t"@, seq!["border-top-style"@, "border-top-width"@]),
        (false, "border-r"@, seq!["border-right-style"@, "border-right-width"@]),
        (false, "border-b"@, seq!["border-bottom-style"@, "border-bottom-width"@]),
        (false, "border-l"@, seq!["border-left-style"@, "border-left-width"@]),
        (false, "border-spacing"@, seq!["--tw-border-spacing-x"@, "--tw-border-spacing-y"@, "border-spacing"@]),
        (false, "border-spacing-x"@, seq!["--tw-border-spacing-x"@, "border-spacing"@]),
        (false, "border-spacing-y"@, seq!["--tw-border-spacing-y"@, "border-spacing"@]),
        (false, "opacity"@, seq!["opacity"@]),
        (false, "z"@, seq!["z-index"@]),
        (false, "order"@, seq!["order"@]),
        (false, "basis"@, seq!["flex-basis"@]),
        (false, "flex"@, seq!["flex"@]),
        (false, "grow"@, seq!["flex-grow"@]),
        (false, "shrink"@, seq!["flex-shrink"@]),
        (false, "translate"@, seq!["translate"@]),
        (false, "translate-x"@, seq!["--tw-translate-x"@, "translate"@]),
        (false, "translate-y"@, seq!["--tw-translate-y"@, "translate"@]),
        (false, "translate-z"@, seq!["--tw-translate-z"@, "translate"@]),
        (false, "rotate"@, seq!["rotate"@]),
        (false, "rotate-x"@, seq!["--tw-rotate-x"@, "transform"@]),
        (false, "rotate-y"@, seq!["--tw-rotate-y"@, "transform"@]),
        (false, "rotate-z"@, seq!["--tw-rotate-z"@, "transform"@]),
        (false, "scale"@, seq!["--tw-scale-x"@, "--tw-scale-y"@, "--tw-scale-z"@, "scale"@]),
        (false, "scale-x"@, seq!["--tw-scale-x"@, "scale"@]),
        (false, "scale-y"@, seq!["--tw-scale-y"@, "scale"@]),
        (false, "scale-z"@, seq!["--tw-scale-z"@, "scale"@]),
        (false, "skew"@, seq!["--tw-skew-x"@, "--tw-skew-y"@, "transform"@]),
        (false, "skew-x"@, seq!["--tw-skew-x"@, "transform"@]),
        (false, "skew-y"@, seq!["--tw-skew-y"@, "transform"@]),
        (false, "shadow"@, seq!["--tw-shadow"@, "box-shadow"@]),
        (false, "ring"@, seq!["--tw-ring-shadow"@, "box-shadow"@]),
        (false, "ring-offset"@, seq!["--tw-ring-offset-width"@, "--tw-ring-offset-shadow"@])
    ]
}

#[verifier::spinoff_prover]
#[verifier::rlimit(80)]
fn functional_rules_3_table() -> (r: Vec<PropertyRule>)
    ensures
        rule_views(r@) == functional_rules_3(),
{
    reveal(functional_rules_3);
    let mut t: Vec<PropertyRule> = Vec::new();
    t.push(PropertyRule { prefix: false, key: "cursor", properties: vec!["cursor"] });
    t.push(PropertyRule { prefix: false, key: "contain", properties: vec!["contain"] });
    t.push(PropertyRule { prefix: false, key: "font-features", properties: vec!["font-feature-settings"] });
    t.push(PropertyRule { prefix: false, key: "will-change", properties: vec!["will-change"] });
    t.push(PropertyRule { prefix: false, key: "transform", properties: vec!["transform"] });
    t.push(PropertyRule { prefix: false, key: "filter", properties: vec!["filter"] });
    t.push(PropertyRule { prefix: false, key: "outline-offset", properties: vec!["outline-offset"] });
    t.push(PropertyRule { prefix: false, key: "@container", properties: vec!["container-type"] });
    t.push(PropertyRule { prefix: false, key: "transition", properties: vec!["transition-property", "transition-timing-function", "transition-duration"] });
    t.push(PropertyRule { prefix: false, key: "border-s", properties: vec!["border-inline-start-style", "border-inline-start-width"] });
    t.push(PropertyRule { prefix: false, key: "border-e", properties: vec!["border-inline-end-style", "border-inline-end-width"] });
    t.push(PropertyRule { prefix: false, key: "border-bs", properties: vec!["border-block-start-style", "border-block-start-width"] });
    t.push(PropertyRule { prefix: false, key: "border-be", properties: vec!["border-block-end-style", "border-block-end-width"] });
    t.push(PropertyRule { prefix: false, key: "border-t", properties: vec!["border-top-style", "border-top-width"] });
    t.push(PropertyRule { prefix: false, key: "border-r", properties: vec!["border-right-style", "border-right-width"] });
    t.push(PropertyRule { prefix: false, key: "border-b", properties: vec!["border-bottom-style", "border-bottom-width"] });
    t.push(PropertyRule { prefix: false, key: "border-l", properties: vec!["border-left-style", "border-left-width"] });
    t.push(PropertyRule { prefix: false, key: "border-spacing", properties: vec!["--tw-border-spacing-x", "--tw-border-spacing-y", "border-spacing"] });
    t.push(PropertyRule { prefix: false, key: "border-spacing-x", properties: vec!["--tw-border-spacing-x", "border-spacing"] });
    t.push(PropertyRule { prefix: false, key: "border-spacing-y", properties: vec!["--tw-border-spacing-y", "border-spacing"] });
    t.push(PropertyRule { prefix: false, key: "opacity", properties: vec!["opacity"] });
    t.push(PropertyRule { prefix: false, key: "z", properties: vec!["z-index"] });
    t.push(PropertyRule { prefix: false, key: "order", properties: vec!["order"] });
    t.push(PropertyRule { prefix: false, key: "basis", properties: vec!["flex-basis"] });
    t.push(PropertyRule { prefix: false, key: "flex", properties: vec!["flex"] });
    t.push(PropertyRule { prefix: false, key: "grow", properties: vec!["flex-grow"] });
    t.push(PropertyRule { prefix: false, key: "shrink", properties: vec!["flex-shrink"] });
    t.push(PropertyRule { prefix: false, key: "translate", properties: vec!["translate"] });
    t.push(PropertyRule { prefix: false, key: "translate-x", properties: vec!["--tw-translate-x", "translate"] });
    t.push(PropertyRule { prefix: false, key: "translate-y", properties: vec!["--tw-translate-y", "translate"] });
    t.push(PropertyRule { prefix: false, key: "translate-z", properties: vec!["--tw-translate-z", "translate"] });
    t.push(PropertyRule { prefix: false, key: "rotate", properties: vec!["rotate"] });
    t.push(PropertyRule { prefix: false, key: "rotate-x", properties: vec!["--tw-rotate-x", "transform"] });
    t.push(PropertyRule { prefix: false, key: "rotate-y", properties: vec!["--tw-rotate-y", "transform"] });
    t.push(PropertyRule { prefix: false, key: "rotate-z", properties: vec!["--tw-rotate-z", "transform"] });
    t.push(PropertyRule { prefix: false, key: "scale", properties: vec!["--tw-scale-x", "--tw-scale-y", "--tw-scale-z", "scale"] });
    t.push(PropertyRule { prefix: false, key: "scale-x", properties: vec!["--tw-scale-x", "scale"] });
    t.push(PropertyRule { prefix: false, key: "scale-y", properties: vec!["--tw-scale-y", "scale"] });
    t.push(PropertyRule { prefix: false, key: "scale-z", properties: vec!["--tw-scale-z", "scale"] });
    t.push(PropertyRule { prefix: false, key: "skew", properties: vec!["--tw-skew-x", "--tw-skew-y", "transform"] });
    t.push(PropertyRule { prefix: false, key: "skew-x", properties: vec!["--tw-skew-x", "transform"] });
    t.push(PropertyRule { prefix: false, key: "skew-y", properties: vec!["--tw-skew-y", "transform"] });
    t.push(PropertyRule { prefix: false, key: "shadow", properties: vec!["--tw-shadow", "box-shadow"] });
    t.push(PropertyRule { prefix: false, key: "ring", properties: vec!["--tw-ring-shadow", "box-shadow"] });
    t.push(PropertyRule { prefix: false, key: "ring-offset", properties: vec!["--tw-ring-offset-width", "--tw-ring-offset-shadow"] });
    assert(rule_views(t@) =~~= functional_rules_3());
    t
}

/// A part of the functional roots' properties, in order.
#[verifier::opaque]
pub open spec fn functional_rules_4() -> Seq<RuleModel> {
    seq![
        (false, "outline"@, seq!["outline-style"@, "outline-width"@]),
        (false, "decoration"@, seq!["text-decoration-thickness"@]),
        (false, "inset-shadow"@, seq!["--tw-inset-shadow"@, "box-shadow"@]),
        (false, "text-shadow"@, seq!["text-shadow"@]),
        (false, "inset-ring"@, seq!["--tw-inset-ring-shadow"@, "box-shadow"@]),
        (false, "drop-shadow"@, seq!["--tw-drop-shadow-size"@, "--tw-drop-shadow"@, "filter"@]),
        (false, "blur"@, seq!["--tw-blur"@, "filter"@]),
        (false, "brightness"@, seq!["--tw-brightness"@, "filter"@]),
        (false, "contrast"@, seq!["--tw-contrast"@, "filter"@]),
        (false, "grayscale"@, seq!["--tw-grayscale"@, "filter"@]),
        (false, "hue-rotate"@, seq!["--tw-hue-rotate"@, "filter"@]),
        (false, "invert"@, seq!["--tw-invert"@, "filter"@]),
        (false, "saturate"@, seq!["--tw-saturate"@, "filter"@]),
        (false, "sepia"@, seq!["--tw-sepia"@, "filter"@]),
        (false, "backdrop-blur"@, seq!["--tw-backdrop-blur"@, "-webkit-backdrop-filter"@, "backdrop-filter"@]),
        (false, "fill"@, seq!["fill"@]),
        (false, "stroke"@, seq!["stroke"@]),
        (false, "animate"@, seq!["animation"@]),
        (false, "delay"@, seq!["transition-delay"@]),
        (false, "duration"@, seq!["--tw-duration"@, "transition-duration"@]),
        (false, "ease"@, seq!["--tw-ease"@, "transition-timing-function"@]),
        (false, "perspective"@, seq!["perspective"@]),
        (false, "columns"@, seq!["columns"@]),
        (false, "aspect"@, seq!["aspect-ratio"@]),
        (false, "indent"@, seq!["text-indent"@]),
        (false, "tab"@, seq!["tab-size"@]),
        (false, "zoom"@, seq!["zoom"@]),
        (false, "scrollbar-thumb"@, seq!["--tw-scrollbar-thumb"@, "scrollbar-color"@]),
        (false, "scrollbar-track"@, seq!["--tw-scrollbar-track"@, "scrollbar-color"@]),
        (false, "mask"@, seq!["mask-image"@]),
        (false, "mask-position"@, seq!["mask-position"@]),
        (false, "mask-size"@, seq!["mask-size"@]),
        (false, "mask-linear"@, seq!["mask-image"@, "mask-composite"@, "--tw-mask-linear"@, "--tw-mask-linear-position"@]),
        (false, "mask-conic"@, seq!["mask-image"@, "mask-composite"@, "--tw-mask-conic"@, "--tw-mask-conic-position"@]),
        (false, "mask-radial"@, seq!["mask-image"@, "mask-composite"@, "--tw-mask-radial"@, "--tw-mask-radial-position"@]),
        (false, "mask-radial-at"@, seq!["mask-image"@, "mask-composite"@, "--tw-mask-radial"@, "--tw-mask-radial-position"@]),
        (false, "mask-linear-from"@, seq!["mask-image"@, "mask-composite"@, "--tw-mask-linear-stops"@, "--tw-mask-linear"@, "--tw-mask-linear-from-position"@]),
        (false, "mask-linear-to"@, seq!["mask-image"@, "mask-composite"@, "--tw-mask-linear-stops"@, "--tw-mask-linear"@, "--tw-mask-linear-to-position"@]),
        (false, "mask-conic-from"@, seq!["mask-image"@, "mask-composite"@, "--tw-mask-conic-stops"@, "--tw-mask-conic"@, "--tw-mask-conic-from-position"@]),
        (false, "mask-conic-to"@, seq!["mask-image"@, "mask-composite"@, "--tw-mask-conic-stops"@, "--tw-mask-conic"@, "--tw-mask-conic-to-position"@]),
        (false, "mask-radial-from"@, seq!["mask-image"@, "mask-composite"@, "--tw-mask-radial-stops"@, "--tw-mask-radial"@, "--tw-mask-radial-from-position"@]),
        (false, "mask-radial-to"@, seq!["mask-image"@, "mask-composite"@, "--tw-mask-radial-stops"@, "--tw-mask-radial"@, "--tw-mask-radial-to-position"@])
    ]
}

#[verifier::spinoff_prover]
#[verifier::rlimit(80)]
fn functional_rules_4_table() -> (r: Vec<PropertyRule>)
    ensures
        rule_views(r@) == functional_rules_4(),
{
    reveal(functional_rules_4);
    let mut t: Vec<PropertyRule> = Vec::new();
    t.push(PropertyRule { prefix: false, key: "outline", properties: vec!["outline-style", "outline-width"] });
    t.push(PropertyRule { prefix: false, key: "decoration", properties: vec!["text-decoration-thickness"] });
    t.push(PropertyRule { prefix: false, key: "inset-shadow", properties: vec!["--tw-inset-shadow", "box-shadow"] });
    t.push(PropertyRule { prefix: false, key: "text-shadow", properties: vec!["text-shadow"] });
    t.push(PropertyRule { prefix: false, key: "inset-ring", properties: vec!["--tw-inset-ring-shadow", "box-shadow"] });
    t.push(PropertyRule { prefix: false, key: "drop-shadow", properties: vec!["--tw-drop-shadow-size", "--tw-drop-shadow", "filter"] });
    t.push(PropertyRule { prefix: false, key: "blur", properties: vec!["--tw-blur", "filter"] });
    t.push(PropertyRule { prefix: false, key: "brightness", properties: vec!["--tw-brightness", "filter"] });
    t.push(PropertyRule { prefix: false, key: "contrast", properties: vec!["--tw-contrast", "filter"] });
    t.push(PropertyRule { prefix: false, key: "grayscale", properties: vec!["--tw-grayscale", "filter"] });
    t.push(PropertyRule { prefix: false, key: "hue-rotate", properties: vec!["--tw-hue-rotate", "filter"] });
    t.push(PropertyRule { prefix: false, key: "invert", properties: vec!["--tw-invert", "filter"] });
    t.push(PropertyRule { prefix: false, key: "saturate", properties: vec!["--tw-saturate", "filter"] });
    t.push(PropertyRule { prefix: false, key: "sepia", properties: vec!["--tw-sepia", "filter"] });
    t.push(PropertyRule { prefix: false, key: "backdrop-blur", properties: vec!["--tw-backdrop-blur", "-webkit-backdrop-filter", "backdrop-filter"] });
    t.push(PropertyRule { prefix: false, key: "fill", properties: vec!["fill"] });
    t.push(PropertyRule { prefix: false, key: "stroke", properties: vec!["stroke"] });
    t.push(PropertyRule { prefix: false, key: "animate", properties: vec!["animation"] });
    t.push(PropertyRule { prefix: false, key: "delay", properties: vec!["transition-delay"] });
    t.push(PropertyRule { prefix: false, key: "duration", properties: vec!["--tw-duration", "transition-duration"] });
    t.push(PropertyRule { prefix: false, key: "ease", properties: vec!["--tw-ease", "transition-timing-function"] });
    t.push(PropertyRule { prefix: false, key: "perspective", properties: vec!["perspective"] });
    t.push(PropertyRule { prefix: false, key: "columns", properties: vec!["columns"] });
    t.push(PropertyRule { prefix: false, key: "aspect", properties: vec!["aspect-ratio"] });
    t.push(PropertyRule { prefix: false, key: "indent", properties: vec!["text-indent"] });
    t.push(PropertyRule { prefix: false, key: "tab", properties: vec!["tab-size"] });
    t.push(PropertyRule { prefix: false, key: "zoom", properties: vec!["zoom"] });
    t.push(PropertyRule { prefix: false, key: "scrollbar-thumb", properties: vec!["--tw-scrollbar-thumb", "scrollbar-color"] });
    t.push(PropertyRule { prefix: false, key: "scrollbar-track", properties: vec!["--tw-scrollbar-track", "scrollbar-color"] });
    t.push(PropertyRule { prefix: false, key: "mask", properties: vec!["mask-image"] });
    t.push(PropertyRule { prefix: false, key: "mask-position", properties: vec!["mask-position"] });
    t.push(PropertyRule { prefix: false, key: "mask-size", properties: vec!["mask-size"] });
    t.push(PropertyRule { prefix: false, key: "mask-linear", properties: vec!["mask-image", "mask-composite", "--tw-mask-linear", "--tw-mask-linear-position"] });
    t.push(PropertyRule { prefix: false, key: "mask-conic", properties: vec!["mask-image", "mask-composite", "--tw-mask-conic", "--tw-mask-conic-position"] });
    t.push(PropertyRule { prefix: false, key: "mask-radial", properties: vec!["mask-image", "mask-composite", "--tw-mask-radial", "--tw-mask-radial-position"] });
    t.push(PropertyRule { prefix: false, key: "mask-radial-at", properties: vec!["mask-image", "mask-composite", "--tw-mask-radial", "--tw-mask-radial-position"] });
    t.push(PropertyRule { prefix: false, key: "mask-linear-from", properties: vec!["mask-image", "mask-composite", "--tw-mask-linear-stops", "--tw-mask-linear", "--tw-mask-linear-from-position"] });
    t.push(PropertyRule { prefix: false, key: "mask-linear-to", properties: vec!["mask-image", "mask-composite", "--tw-mask-linear-stops", "--tw-mask-linear", "--tw-mask-linear-to-position"] });
    t.push(PropertyRule { prefix: false, key: "mask-conic-from", properties: vec!["mask-image", "mask-composite", "--tw-mask-conic-stops", "--tw-mask-conic", "--tw-mask-conic-from-position"] });
    t.push(PropertyRule { prefix: false, key: "mask-conic-to", properties: vec!["mask-image", "mask-composite", "--tw-mask-conic-stops", "--tw-mask-conic", "--tw-mask-conic-to-position"] });
    t.push(PropertyRule { prefix: false, key: "mask-radial-from", properties: vec!["mask-image", "mask-composite", "--tw-mask-radial-stops", "--tw-mask-radial", "--tw-mask-radial-from-position"] });
    t.push(PropertyRule { prefix: false, key: "mask-radial-to", properties: vec!["mask-image", "mask-composite", "--tw-mask-radial-stops", "--tw-mask-radial", "--tw-mask-radial-to-position"] });
    assert(rule_views(t@) =~~= functional_rules_4());
    t
}

/// The properties of the functional roots whose properties do not depend on the value.
pub open spec fn functional_rules() -> Seq<RuleModel> {
    functional_rules_0() + (functional_rules_1() + (functional_rules_2() + (functional_rules_3() + (functional_rules_4()))))
}

fn functional_rule_properties(root: &str) -> (r: Option<Vec<String>>)
    ensures
        match r {
            Some(p) => first_rule(functional_rules(), root@) == Some(texts(p@)),
            None => first_rule(functional_rules(), root@) is None,
        },
{
    proof {
        lemma_first_rule_concat(functional_rules_0(), functional_rules_1() + (functional_rules_2() + (functional_rules_3() + (functional_rules_4()))), root@, 0);
        lemma_first_rule_concat(functional_rules_1(), functional_rules_2() + (functional_rules_3() + (functional_rules_4())), root@, 0);
        lemma_first_rule_concat(functional_rules_2(), functional_rules_3() + (functional_rules_4()), root@, 0);
        lemma_first_rule_concat(functional_rules_3(), functional_rules_4(), root@, 0);
    }
    if let Some(p) = lookup_rules(&functional_rules_0_table(), root) {
        return Some(p);
    }
    if let Some(p) = lookup_rules(&functional_rules_1_table(), root) {
        return Some(p);
    }
    if let Some(p) = lookup_rules(&functional_rules_2_table(), root) {
        return Some(p);
    }
    if let Some(p) = lookup_rules(&functional_rules_3_table(), root) {
        return Some(p);
    }
    if let Some(p) = lookup_rules(&functional_rules_4_table(), root) {
        return Some(p);
    }
    None
}

/// The properties of a root that takes a color or a width: its color properties when the value
/// is a color, else its width properties.
pub open spec fn spec_properties_for_color_or_width(root: Seq<char>, is_color: bool) -> Seq<Seq<char>> {
    match first_rule(if is_color { color_rules() } else { width_rules() }, root) {
        Some(p) => p,
        None => Seq::empty(),
    }
}

pub fn properties_for_color_or_width(root: &str, is_color: bool) -> (r: Vec<String>)
    ensures
        texts(r@) == spec_properties_for_color_or_width(root@, is_color),
{
    let table = if is_color { color_rules_table() } else { width_rules_table() };
    match lookup_rules(&table, root) {
        Some(p) => p,
        None => Vec::new(),
    }
}

/// The properties of a mask edge utility (`mask-t-from`, `mask-x-to`, ...), or none.
pub open spec fn spec_mask_edge_properties(root: Seq<char>) -> Seq<Seq<char>> {
    match first_rule(mask_edge_rules(), root) {
        Some(p) => p,
        None => Seq::empty(),
    }
}

pub fn mask_edge_properties(root: &str) -> (r: Vec<String>)
    ensures
        texts(r@) == spec_mask_edge_properties(root@),
{
    match lookup_rules(&mask_edge_rules_table(), root) {
        Some(p) => p,
        None => Vec::new(),
    }
}

pub open spec fn opt_value(value: Option<&CandidateValue>) -> Option<CandidateValueModel> {
    match value {
        Some(v) => Some(v@),
        None => None,
    }
}

/// Whether a utility value ends with `%`.
pub open spec fn spec_value_is_percentage(value: Option<CandidateValueModel>) -> bool {
    match value {
        Some(CandidateValueModel::Named { value, .. }) => is_suffix("%"@, value),
        Some(CandidateValueModel::Arbitrary { value, .. }) => is_suffix("%"@, value),
        None => false,
    }
}

pub fn value_is_percentage(value: Option<&CandidateValue>) -> (r: bool)
    ensures
        r == spec_value_is_percentage(opt_value(value)),
{
    match value {
        Some(CandidateValue::Named(v)) => crate::text::ends_with(v.value.as_str(), "%"),
        Some(CandidateValue::Arbitrary(v)) => crate::text::ends_with(v.value.as_str(), "%"),
        None => false,
    }
}

/// Whether a utility value is named and starts with `prefix`.
pub open spec fn spec_named_value_starts_with(value: Option<CandidateValueModel>, prefix: Seq<char>) -> bool {
    match value {
        Some(CandidateValueModel::Named { value, .. }) => is_prefix(prefix, value),
        _ => false,
    }
}

pub fn named_value_starts_with(value: Option<&CandidateValue>, prefix: &str) -> (r: bool)
    ensures
        r == spec_named_value_starts_with(opt_value(value), prefix@),
{
    match value {
        Some(CandidateValue::Named(v)) => starts_with(v.value.as_str(), prefix),
        _ => false,
    }
}

/// Whether a named utility value reads as a color: a hyphenated theme name or a keyword color.
pub open spec fn spec_named_value_is_color(value: Option<CandidateValueModel>) -> bool {
    match value {
        Some(CandidateValueModel::Named { value, .. }) => value.contains('-') || value == "current"@
            || value == "inherit"@ || value == "transparent"@,
        _ => false,
    }
}

pub fn named_value_is_color(value: Option<&CandidateValue>) -> (r: bool)
    ensures
        r == spec_named_value_is_color(opt_value(value)),
{
    match value {
        Some(CandidateValue::Named(v)) => {
            let t = v.value.as_str();
            crate::text::contains_char(t, '-') || str_eq(t, "current") || str_eq(t, "inherit") || str_eq(t, "transparent")
        },
        _ => false,
    }
}

/// Whether a utility value is a color: an arbitrary color, or a named one.
pub open spec fn spec_value_is_color(value: Option<CandidateValueModel>) -> bool {
    match value {
        Some(CandidateValueModel::Arbitrary { data_type, value }) => spec_value_is_arbitrary_color(data_type, value),
        _ => spec_named_value_is_color(value),
    }
}

pub fn value_is_color(value: Option<&CandidateValue>) -> (r: bool)
    ensures
        r == spec_value_is_color(opt_value(value)),
{
    match value {
        Some(CandidateValue::Arbitrary(a)) => value_is_arbitrary_color(a),
        _ => named_value_is_color(value),
    }
}

/// The CSS properties a functional root (without its `-`) sets with `value`: the border and
/// divide color or width, the background color or image, gradient stops or their positions,
/// the font size or color of `text`, then the fixed properties of the other roots, the
/// `--tw-*` filter of a backdrop root, and the mask edges.
pub open spec fn spec_functional_properties(root: Seq<char>, value: Option<CandidateValueModel>) -> Seq<Seq<char>> {
    if root == "divide"@ || root == "border"@ {
        if spec_value_is_color(value) { seq!["border-color"@] } else { seq!["border-width"@] }
    } else if root == "bg"@ {
        if spec_named_value_starts_with(value, "linear-"@) { seq!["background-image"@] } else { seq!["background-color"@] }
    } else if root == "from"@ && spec_value_is_percentage(value) {
        seq!["--tw-gradient-from-position"@]
    } else if root == "via"@ && spec_value_is_percentage(value) {
        seq!["--tw-gradient-via-position"@]
    } else if root == "to"@ && spec_value_is_percentage(value) {
        seq!["--tw-gradient-to-position"@]
    } else if root == "from"@ {
        seq!["--tw-gradient-from"@, "--tw-gradient-stops"@]
    } else if root == "via"@ {
        seq!["--tw-gradient-via"@, "--tw-gradient-via-stops"@]
    } else if root == "to"@ {
        seq!["--tw-gradient-to"@]
    } else if root == "text"@ {
        if spec_named_value_starts_with(value, "text"@) { seq!["font-size"@, "line-height"@] } else { seq!["color"@] }
    } else {
        match first_rule(functional_rules(), root) {
            Some(p) => p,
            None => if is_prefix("backdrop-"@, root) {
                seq!["--tw-"@ + root, "-webkit-backdrop-filter"@, "backdrop-filter"@]
            } else if is_prefix("mask-"@, root) {
                spec_mask_edge_properties(root)
            } else {
                Seq::empty()
            },
        }
    }
}

fn texts_of(items: Vec<&str>) -> (r: Vec<String>)
    ensures
        texts(r@) == crate::text::views(items@),
{
    let mut r: Vec<String> = Vec::new();
    let mut i: usize = 0;
    while i < items.len()
        invariant
            i <= items@.len(),
            texts(r@) == crate::text::views(items@).take(i as int),
        decreases items.len() - i,
    {
        let owned = items[i].to_owned();
        let ghost before = texts(r@);
        r.push(owned);
        assert(texts(r@) =~= before.push(owned@));
        assert(texts(r@) =~= crate::text::views(items@).take(i + 1));
        i = i + 1;
    }
    assert(crate::text::views(items@).take(items@.len() as int) =~= crate::text::views(items@));
    r
}

pub fn functional_properties(root: &str, value: Option<&CandidateValue>) -> (r: Vec<String>)
    ensures
        texts(r@) == spec_functional_properties(root@, opt_value(value)),
{
    if str_eq(root, "divide") || str_eq(root, "border") {
        let v = if value_is_color(value) { vec!["border-color"] } else { vec!["border-width"] };
        let r = texts_of(v);
        assert(texts(r@) =~= spec_functional_properties(root@, opt_value(value)));
        return r;
    }
    if str_eq(root, "bg") {
        let v = if named_value_starts_with(value, "linear-") { vec!["background-image"] } else { vec!["background-color"] };
        let r = texts_of(v);
        assert(texts(r@) =~= spec_functional_properties(root@, opt_value(value)));
        return r;
    }
    let percentage = value_is_percentage(value);
    let fixed: Option<Vec<&str>> = if str_eq(root, "from") && percentage {
        Some(vec!["--tw-gradient-from-position"])
    } else if str_eq(root, "via") && percentage {
        Some(vec!["--tw-gradient-via-position"])
    } else if str_eq(root, "to") && percentage {
        Some(vec!["--tw-gradient-to-position"])
    } else if str_eq(root, "from") {
        Some(vec!["--tw-gradient-from", "--tw-gradient-stops"])
    } else if str_eq(root, "via") {
        Some(vec!["--tw-gradient-via", "--tw-gradient-via-stops"])
    } else if str_eq(root, "to") {
        Some(vec!["--tw-gradient-to"])
    } else if str_eq(root, "text") {
        if named_value_starts_with(value, "text") {
            Some(vec!["font-size", "line-height"])
        } else {
            Some(vec!["color"])
        }
    } else {
        None
    };
    if let Some(v) = fixed {
        let r = texts_of(v);
        assert(texts(r@) =~= spec_functional_properties(root@, opt_value(value)));
        return r;
    }
    if let Some(p) = functional_rule_properties(root) {
        return p;
    }
    if starts_with(root, "backdrop-") {
        let mut variable = String::new();
        push_str(&mut variable, "--tw-");
        push_str(&mut variable, root);
        let r = vec![variable, "-webkit-backdrop-filter".to_owned(), "backdrop-filter".to_owned()];
        assert(texts(r@) =~= spec_functional_properties(root@, opt_value(value)));
        return r;
    }
    if starts_with(root, "mask-") {
        return mask_edge_properties(root);
    }
    Vec::new()
}

/// Whether the theme defines `name`.
pub open spec fn theme_has(design: DesignSystem, name: Seq<char>) -> bool {
    text_map_contents(design.theme).contains_key(name)
}

/// The theme namespaces whose `--namespace-value` variables name values of a root.
pub open spec fn theme_namespaces(root: Seq<char>) -> Seq<Seq<char>> {
    if root == "bg"@ || root == "text"@ || root == "fill"@ || root == "stroke"@ || root == "accent"@ || root == "caret"@ || root == "placeholder"@ {
        seq!["color"@]
    } else if is_prefix("rounded"@, root) {
        seq!["radius"@]
    } else if root == "font"@ {
        seq!["font"@, "font-weight"@]
    } else if root == "leading"@ {
        seq!["leading"@]
    } else if root == "tracking"@ {
        seq!["tracking"@]
    } else if root == "shadow"@ || root == "inset-shadow"@ {
        seq!["shadow"@]
    } else if root == "drop-shadow"@ {
        seq!["drop-shadow"@]
    } else if root == "blur"@ {
        seq!["blur"@]
    } else if root == "backdrop-blur"@ {
        seq!["backdrop-blur"@, "blur"@]
    } else if root == "w"@ {
        seq!["width"@, "spacing"@, "container"@]
    } else if root == "min-w"@ {
        seq!["min-width"@, "spacing"@, "container"@]
    } else if root == "max-w"@ {
        seq!["max-width"@, "spacing"@, "container"@]
    } else if root == "h"@ {
        seq!["height"@, "spacing"@]
    } else if root == "min-h"@ {
        seq!["min-height"@, "height"@, "spacing"@]
    } else if root == "max-h"@ {
        seq!["max-height"@, "height"@, "spacing"@]
    } else if root == "auto-cols"@ {
        seq!["grid-auto-columns"@]
    } else if root == "auto-rows"@ {
        seq!["grid-auto-rows"@]
    } else {
        seq![root]
    }
}

fn theme_namespaces_exec<'a>(root: &'a str) -> (r: Vec<&'a str>)
    ensures
        crate::text::views(r@) == theme_namespaces(root@),
{
    let r = {
    if str_eq(root, "bg") || str_eq(root, "text") || str_eq(root, "fill") || str_eq(root, "stroke") || str_eq(root, "accent") || str_eq(root, "caret") || str_eq(root, "placeholder") {
            vec!["color"]
        } else if starts_with(root, "rounded") {
            vec!["radius"]
        } else if str_eq(root, "font") {
            vec!["font", "font-weight"]
        } else if str_eq(root, "leading") {
            vec!["leading"]
        } else if str_eq(root, "tracking") {
            vec!["tracking"]
        } else if str_eq(root, "shadow") || str_eq(root, "inset-shadow") {
            vec!["shadow"]
        } else if str_eq(root, "drop-shadow") {
            vec!["drop-shadow"]
        } else if str_eq(root, "blur") {
            vec!["blur"]
        } else if str_eq(root, "backdrop-blur") {
            vec!["backdrop-blur", "blur"]
        } else if str_eq(root, "w") {
            vec!["width", "spacing", "container"]
        } else if str_eq(root, "min-w") {
            vec!["min-width", "spacing", "container"]
        } else if str_eq(root, "max-w") {
            vec!["max-width", "spacing", "container"]
        } else if str_eq(root, "h") {
            vec!["height", "spacing"]
        } else if str_eq(root, "min-h") {
            vec!["min-height", "height", "spacing"]
        } else if str_eq(root, "max-h") {
            vec!["max-height", "height", "spacing"]
        } else if str_eq(root, "auto-cols") {
            vec!["grid-auto-columns"]
        } else if str_eq(root, "auto-rows") {
            vec!["grid-auto-rows"]
        } else {
            vec![root]
        }
    };
    assert(crate::text::views(r@) =~= theme_namespaces(root@));
    r
}

/// The variable `--namespace-value`.
pub open spec fn theme_variable(namespace: Seq<char>, value: Seq<char>) -> Seq<char> {
    "--"@ + namespace + "-"@ + value
}

fn theme_variable_exec(namespace: &str, value: &str) -> (r: String)
    ensures
        r@ == theme_variable(namespace@, value@),
{
    let mut r = concat3("--", namespace, "-");
    push_str(&mut r, value);
    r
}

/// Whether the theme defines `value` in one of the namespaces of `root`.
pub open spec fn spec_theme_key_exists(design: DesignSystem, root: Seq<char>, value: Seq<char>) -> bool {
    exists|k: int| 0 <= k < theme_namespaces(root).len()
        && #[trigger] theme_has(design, theme_variable(theme_namespaces(root)[k], value))
}

pub fn theme_key_exists(design: &DesignSystem, root: &str, value: &str) -> (r: bool)
    ensures
        r == spec_theme_key_exists(*design, root@, value@),
{
    let namespaces = theme_namespaces_exec(root);
    let ghost ns = theme_namespaces(root@);
    let mut k: usize = 0;
    while k < namespaces.len()
        invariant
            ns == theme_namespaces(root@),
            crate::text::views(namespaces@) == ns,
            k <= namespaces@.len(),
            forall|j: int| 0 <= j < k ==> !theme_has(*design, #[trigger] theme_variable(ns[j], value@)),
        decreases namespaces.len() - k,
    {
        let name = theme_variable_exec(namespaces[k], value);
        assert(ns[k as int] == namespaces@[k as int]@);
        if design.theme.contains_key(name.as_str()) {
            assert(theme_has(*design, theme_variable(ns[k as int], value@)));
            return true;
        }
        k = k + 1;
    }
    false
}

/// The theme namespace of the width values of a root that takes a color or a width.
pub open spec fn width_namespace(root: Seq<char>) -> Option<Seq<char>> {
    if is_prefix("border"@, root) { Some("border-width"@) }
    else if is_prefix("divide"@, root) { Some("divide-width"@) }
    else if root == "ring"@ { Some("ring-width"@) }
    else if root == "ring-offset"@ { Some("ring-offset-width"@) }
    else if root == "outline"@ { Some("outline-width"@) }
    else if root == "decoration"@ { Some("text-decoration-thickness"@) }
    else if root == "stroke"@ { Some("stroke-width"@) }
    else { None }
}

/// Whether the theme defines `value` as a width of `root`.
pub open spec fn spec_width_theme_key_exists(design: DesignSystem, root: Seq<char>, value: Seq<char>) -> bool {
    match width_namespace(root) {
        Some(namespace) => theme_has(design, theme_variable(namespace, value)),
        None => false,
    }
}

pub fn width_theme_key_exists(design: &DesignSystem, root: &str, value: &str) -> (r: bool)
    ensures
        r == spec_width_theme_key_exists(*design, root@, value@),
{
    let namespace = if starts_with(root, "border") { "border-width" }
        else if starts_with(root, "divide") { "divide-width" }
        else if str_eq(root, "ring") { "ring-width" }
        else if str_eq(root, "ring-offset") { "ring-offset-width" }
        else if str_eq(root, "outline") { "outline-width" }
        else if str_eq(root, "decoration") { "text-decoration-thickness" }
        else if str_eq(root, "stroke") { "stroke-width" }
        else { return false; };
    let name = theme_variable_exec(namespace, value);
    design.theme.contains_key(name.as_str())
}

/// What the spacing scale says of a candidate: whether its named value, and its named modifier,
/// is a non-negative multiple of a quarter step written the way Rust prints that number.
/// Telling this takes floating-point parsing and printing, so the caller supplies it.
#[derive(Clone, Copy)]
pub struct SpacingFacts {
    pub value: bool,
    pub modifier: bool,
}

pub open spec fn is_color_keyword(v: Seq<char>) -> bool {
    v == "current"@ || v == "inherit"@ || v == "transparent"@
}

fn is_color_keyword_exec(v: &str) -> (r: bool)
    ensures
        r == is_color_keyword(v@),
{
    str_eq(v, "current") || str_eq(v, "inherit") || str_eq(v, "transparent")
}

fn theme_has_exec(design: &DesignSystem, a: &str, b: &str) -> (r: bool)
    ensures
        r == theme_has(*design, a@ + b@),
{
    let name = concat2(a, b);
    design.theme.contains_key(name.as_str())
}

/// Whether an opacity modifier is valid: arbitrary, a quarter step, or a theme opacity.
pub open spec fn spec_opacity_modifier_is_valid(design: DesignSystem, modifier: ModifierModel, facts: SpacingFacts) -> bool {
    match modifier {
        ModifierModel::Arbitrary(_) => true,
        ModifierModel::Named(m) => facts.modifier || theme_has(design, "--opacity-"@ + m),
    }
}

/// Whether a modifier is valid on a functional utility: a named gradient direction for
/// `bg-linear`, an opacity on shadows and colors, a line height on font sizes.
pub open spec fn spec_functional_modifier_is_valid(design: DesignSystem, root: Seq<char>, value: CandidateValueModel, modifier: ModifierModel, facts: SpacingFacts) -> bool {
    let root = positive_root(root);
    if root == "bg-linear"@ {
        value is Named
    } else if root == "shadow"@ || root == "inset-shadow"@ || root == "drop-shadow"@ || root == "text-shadow"@ {
        spec_opacity_modifier_is_valid(design, modifier, facts)
    } else if root == "text"@ {
        let is_font_size = match value {
            CandidateValueModel::Named { value, .. } => theme_has(design, "--text-"@ + value),
            CandidateValueModel::Arbitrary { data_type, value } => data_type == Some("length"@) || spec_is_css_length(value),
        };
        if is_font_size {
            match modifier {
                ModifierModel::Arbitrary(_) => true,
                ModifierModel::Named(m) => m == "none"@ || theme_has(design, "--leading-"@ + m)
                    || (facts.modifier && theme_has(design, "--spacing"@)),
            }
        } else {
            spec_opacity_modifier_is_valid(design, modifier, facts)
        }
    } else if spec_is_color_root(root) || root == "bg"@ {
        let is_color = match value {
            CandidateValueModel::Named { value, .. } => theme_has(design, "--color-"@ + value) || is_color_keyword(value),
            CandidateValueModel::Arbitrary { data_type, value } => spec_value_is_arbitrary_color(data_type, value),
        };
        is_color && spec_opacity_modifier_is_valid(design, modifier, facts)
    } else {
        false
    }
}

impl DesignSystem {
    fn opacity_modifier_is_valid(&self, modifier: &Modifier, facts: SpacingFacts) -> (r: bool)
        ensures
            r == spec_opacity_modifier_is_valid(*self, modifier@, facts),
    {
        match modifier {
            Modifier::Arbitrary(_) => true,
            Modifier::Named(m) => facts.modifier || theme_has_exec(self, "--opacity-", m.as_str()),
        }
    }

    /// Whether the theme defines the color `value`.
    pub fn has_theme_color(&self, value: &str) -> (r: bool)
        ensures
            r == theme_has(*self, "--color-"@ + value@),
    {
        theme_has_exec(self, "--color-", value)
    }

    pub fn functional_modifier_is_valid(&self, root: &str, value: &CandidateValue, modifier: &Modifier, facts: SpacingFacts) -> (r: bool)
        ensures
            r == spec_functional_modifier_is_valid(*self, root@, value@, modifier@, facts),
    {
        let root = strip_negative(root);
        if str_eq(root, "bg-linear") {
            return match value {
                CandidateValue::Named(_) => true,
                CandidateValue::Arbitrary(_) => false,
            };
        }
        if str_eq(root, "shadow") || str_eq(root, "inset-shadow") || str_eq(root, "drop-shadow") || str_eq(root, "text-shadow") {
            return self.opacity_modifier_is_valid(modifier, facts);
        }
        if str_eq(root, "text") {
            let is_font_size = match value {
                CandidateValue::Named(v) => theme_has_exec(self, "--text-", v.value.as_str()),
                CandidateValue::Arbitrary(a) => {
                    let typed = match &a.data_type {
                        Some(t) => str_eq(t.as_str(), "length"),
                        None => false,
                    };
                    typed || is_css_length(a.value.as_str())
                },
            };
            return if is_font_size {
                match modifier {
                    Modifier::Arbitrary(_) => true,
                    Modifier::Named(m) => str_eq(m.as_str(), "none") || theme_has_exec(self, "--leading-", m.as_str())
                        || (facts.modifier && self.theme.contains_key("--spacing")),
                }
            } else {
                self.opacity_modifier_is_valid(modifier, facts)
            };
        }
        if is_color_root(root) || str_eq(root, "bg") {
            let is_color = match value {
                CandidateValue::Named(v) => self.has_theme_color(v.value.as_str()) || is_color_keyword_exec(v.value.as_str()),
                CandidateValue::Arbitrary(a) => value_is_arbitrary_color(a),
            };
            return is_color && self.opacity_modifier_is_valid(modifier, facts);
        }
        false
    }
}

/// Whether a functional utility's value (and modifier) names something Tailwind knows: a value
/// for a stylesheet utility, a default for roots that have one, then per kind of root its theme
/// namespaces, keywords and bare numbers.
pub open spec fn spec_functional_value_is_valid(design: DesignSystem, root: Seq<char>, value: Option<CandidateValueModel>, modifier: Option<ModifierModel>, facts: SpacingFacts) -> bool {
    let root = positive_root(root);
    if design.spec_custom_utility_properties(root) is Some {
        value is Some
    } else {
        match value {
            None => modifier is None && spec_has_default_value(root),
            Some(value) => {
                let fraction_modifier = match value {
                    CandidateValueModel::Named { fraction: Some(f), .. } => spec_valid_fraction(f) && spec_supports_fraction(root),
                    _ => false,
                };
                let modifier_ok = match modifier {
                    Some(m) => spec_functional_modifier_is_valid(design, root, value, m, facts),
                    None => true,
                };
                if !fraction_modifier && !modifier_ok {
                    false
                } else {
                    match value {
                        CandidateValueModel::Arbitrary { .. } => true,
                        CandidateValueModel::Named { value: v, fraction } => spec_named_value_is_valid(design, root, v, fraction, facts),
                    }
                }
            },
        }
    }
}

/// Whether a named value is valid for a functional root (without its `-`).
pub open spec fn spec_named_value_is_valid(design: DesignSystem, root: Seq<char>, v: Seq<char>, fraction: Option<Seq<char>>, facts: SpacingFacts) -> bool {
    if root == "bg"@ {
        theme_has(design, "--color-"@ + v) || theme_has(design, "--background-image-"@ + v) || is_color_keyword(v)
    } else if spec_is_color_or_width_root(root) {
        theme_has(design, "--color-"@ + v) || is_color_keyword(v) || parse_unsigned_spec(v, u32::MAX as int) is Some
            || spec_width_theme_key_exists(design, root, v)
    } else if (root == "from"@ || root == "via"@ || root == "to"@) && is_suffix("%"@, v) {
        spec_parses_as_float(v.drop_last())
    } else if spec_is_color_root(root) {
        is_color_keyword(v) || theme_has(design, "--color-"@ + v) || spec_theme_key_exists(design, root, v)
    } else if root == "text"@ {
        theme_has(design, "--text-"@ + v) || theme_has(design, "--color-"@ + v) || is_color_keyword(v)
    } else if root == "font"@ {
        theme_has(design, "--font-"@ + v) || theme_has(design, "--font-weight-"@ + v)
    } else if spec_is_spacing_root(root) {
        v == "px"@ || (facts.value && theme_has(design, "--spacing"@)) || fraction is Some
            || spec_is_builtin_spacing_value(root, v) || spec_theme_key_exists(design, root, v)
    } else if spec_is_positive_integer_root(root) {
        spec_is_positive_integer(v) || v == "auto"@ || v == "first"@ || v == "last"@ || v == "full"@ || v == "none"@
            || spec_theme_key_exists(design, root, v)
    } else if root == "opacity"@ || is_suffix("-opacity"@, root) {
        facts.value || theme_has(design, "--opacity-"@ + v)
    } else if root == "grid-cols"@ || root == "grid-rows"@ {
        spec_is_strict_positive_integer(v) || spec_theme_key_exists(design, root, v)
    } else if spec_is_integer_bare_value_root(root) {
        spec_is_positive_integer(v) || spec_theme_key_exists(design, root, v)
    } else if root == "blur"@ || root == "backdrop-blur"@ {
        v == "none"@ || spec_theme_key_exists(design, root, v)
    } else if is_prefix("rounded"@, root) {
        v == "none"@ || v == "full"@ || spec_theme_key_exists(design, root, v)
    } else if root == "origin"@ || root == "transition"@ {
        spec_theme_key_exists(design, root, v) || spec_is_builtin_functional_value(root, v)
    } else {
        spec_theme_key_exists(design, root, v) || spec_is_builtin_functional_value(root, v) || spec_is_builtin_named_value(v)
    }
}

fn named_value_is_valid(design: &DesignSystem, root: &str, v: &str, fraction: bool, facts: SpacingFacts) -> (r: bool)
    ensures
        forall|f: Option<Seq<char>>| (f is Some) == fraction ==>
            r == spec_named_value_is_valid(*design, root@, v@, f, facts),
{
    if str_eq(root, "bg") {
        return design.has_theme_color(v) || theme_has_exec(design, "--background-image-", v) || is_color_keyword_exec(v);
    }
    if is_color_or_width_root(root) {
        return design.has_theme_color(v) || is_color_keyword_exec(v) || crate::numbers::parse_u32(v).is_some()
            || width_theme_key_exists(design, root, v);
    }
    if (str_eq(root, "from") || str_eq(root, "via") || str_eq(root, "to")) && crate::text::ends_with(v, "%") {
        let n = v.unicode_len();
        proof {
            reveal_strlit("%");
        }
        let number = v.substring_char(0, n - 1);
        assert(number@ =~= v@.drop_last());
        return parses_as_float(number);
    }
    if is_color_root(root) {
        return is_color_keyword_exec(v) || design.has_theme_color(v) || theme_key_exists(design, root, v);
    }
    if str_eq(root, "text") {
        return theme_has_exec(design, "--text-", v) || design.has_theme_color(v) || is_color_keyword_exec(v);
    }
    if str_eq(root, "font") {
        return theme_has_exec(design, "--font-", v) || theme_has_exec(design, "--font-weight-", v);
    }
    if is_spacing_root(root) {
        return str_eq(v, "px") || (facts.value && design.theme.contains_key("--spacing")) || fraction
            || is_builtin_spacing_value(root, v) || theme_key_exists(design, root, v);
    }
    if is_positive_integer_root(root) {
        return is_positive_integer(v) || str_eq(v, "auto") || str_eq(v, "first") || str_eq(v, "last") || str_eq(v, "full")
            || str_eq(v, "none") || theme_key_exists(design, root, v);
    }
    if str_eq(root, "opacity") || crate::text::ends_with(root, "-opacity") {
        return facts.value || theme_has_exec(design, "--opacity-", v);
    }
    if str_eq(root, "grid-cols") || str_eq(root, "grid-rows") {
        return is_strict_positive_integer(v) || theme_key_exists(design, root, v);
    }
    if is_integer_bare_value_root(root) {
        return is_positive_integer(v) || theme_key_exists(design, root, v);
    }
    if str_eq(root, "blur") || str_eq(root, "backdrop-blur") {
        return str_eq(v, "none") || theme_key_exists(design, root, v);
    }
    if starts_with(root, "rounded") {
        return str_eq(v, "none") || str_eq(v, "full") || theme_key_exists(design, root, v);
    }
    if str_eq(root, "origin") || str_eq(root, "transition") {
        return theme_key_exists(design, root, v) || is_builtin_functional_value(root, v);
    }
    theme_key_exists(design, root, v) || is_builtin_functional_value(root, v) || is_builtin_named_value(v)
}

impl DesignSystem {
    /// Whether a functional utility's value and modifier are valid; `facts` tells the spacing
    /// steps of the named value and modifier.
    pub fn functional_value_is_valid(&self, root: &str, value: Option<&CandidateValue>, modifier: Option<&Modifier>, facts: SpacingFacts) -> (r: bool)
        ensures
            r == spec_functional_value_is_valid(*self, root@, opt_value(value), opt_modifier_ref(modifier), facts),
    {
        let root = strip_negative(root);
        if self.custom_utility_properties(root).is_some() {
            return value.is_some();
        }
        let value = match value {
            Some(v) => v,
            None => return modifier.is_none() && has_default_value(root),
        };
        let fraction_modifier = match value {
            CandidateValue::Named(n) => match &n.fraction {
                Some(f) => valid_fraction(f.as_str()) && supports_fraction(root),
                None => false,
            },
            CandidateValue::Arbitrary(_) => false,
        };
        let modifier_ok = match modifier {
            Some(m) => self.functional_modifier_is_valid(root, value, m, facts),
            None => true,
        };
        if !fraction_modifier && !modifier_ok {
            return false;
        }
        match value {
            CandidateValue::Arbitrary(_) => true,
            CandidateValue::Named(n) => named_value_is_valid(self, root, n.value.as_str(), n.fraction.is_some(), facts),
        }
    }
}

pub open spec fn opt_modifier_ref(m: Option<&Modifier>) -> Option<ModifierModel> {
    match m {
        Some(m) => Some(m@),
        None => None,
    }
}

/// Whether `needle` occurs in `s`.
pub open spec fn contains_text(s: Seq<char>, needle: Seq<char>) -> bool {
    crate::canonical::find_from(s, needle, 0) is Some
}

fn contains_text_exec(s: &str, needle: &str) -> (r: bool)
    ensures
        r == contains_text(s@, needle@),
{
    let chars = crate::text::chars_of(s);
    let pattern = crate::text::chars_of(needle);
    crate::canonical::find_from_exec(&chars, &pattern, 0).is_some()
}

/// The properties of a static utility: those its stylesheet `@utility` sets, else the built-in
/// ones.
pub open spec fn spec_properties_for_root(design: DesignSystem, root: Seq<char>) -> Seq<Seq<char>> {
    match design.spec_custom_utility_properties(root) {
        Some(p) => p,
        None => spec_static_properties(root),
    }
}

/// The properties of a functional utility with `value`: a stylesheet `@utility`'s, else the font
/// size, line height or color of `text`, the image or color of `bg`, the color or width of
/// border-like roots, the weight or family of `font`, else the root's own.
pub open spec fn spec_properties_for_functional(design: DesignSystem, root: Seq<char>, value: Option<CandidateValueModel>) -> Seq<Seq<char>> {
    let root = positive_root(root);
    if design.spec_custom_utility_properties(root) is Some {
        design.spec_custom_utility_properties(root)->0
    } else if root == "text"@ {
        match value {
            Some(CandidateValueModel::Named { value, .. }) => if theme_has(design, "--text-"@ + value) {
                seq!["font-size"@, "line-height"@]
            } else {
                seq!["color"@]
            },
            Some(CandidateValueModel::Arbitrary { data_type, value }) => if data_type == Some("length"@) || spec_is_css_length(value) {
                seq!["font-size"@]
            } else {
                seq!["color"@]
            },
            None => seq!["color"@],
        }
    } else if root == "bg"@ {
        match value {
            Some(CandidateValueModel::Named { value, .. }) => if theme_has(design, "--background-image-"@ + value) {
                seq!["background-image"@]
            } else {
                seq!["background-color"@]
            },
            Some(CandidateValueModel::Arbitrary { data_type, value }) => if data_type == Some("image"@) || data_type == Some("url"@)
                || is_prefix("url("@, value) || contains_text(value, "gradient("@) {
                seq!["background-image"@]
            } else {
                seq!["background-color"@]
            },
            None => seq!["background-color"@],
        }
    } else if spec_is_color_or_width_root(root) {
        let is_color = match value {
            Some(CandidateValueModel::Named { value, .. }) => theme_has(design, "--color-"@ + value) || is_color_keyword(value),
            Some(CandidateValueModel::Arbitrary { data_type, value }) => spec_value_is_arbitrary_color(data_type, value),
            None => false,
        };
        spec_properties_for_color_or_width(root, is_color)
    } else if root == "font"@ {
        match value {
            Some(CandidateValueModel::Named { value, .. }) => if theme_has(design, "--font-weight-"@ + value) {
                seq!["--tw-font-weight"@, "font-weight"@]
            } else {
                seq!["font-family"@]
            },
            Some(CandidateValueModel::Arbitrary { data_type, value }) => if data_type == Some("number"@) || spec_parses_as_float(value) {
                seq!["--tw-font-weight"@, "font-weight"@]
            } else {
                seq!["font-family"@]
            },
            None => seq!["font-family"@],
        }
    } else {
        spec_functional_properties(root, value)
    }
}

fn type_is(data_type: &Option<String>, name: &str) -> (r: bool)
    ensures
        r == (opt_text(*data_type) == Some(name@)),
{
    match data_type {
        Some(t) => str_eq(t.as_str(), name),
        None => false,
    }
}

impl DesignSystem {
    pub fn properties_for_root(&self, root: &str) -> (r: Vec<String>)
        ensures
            texts(r@) == spec_properties_for_root(*self, root@),
    {
        match self.custom_utility_properties(root) {
            Some(p) => {
                assert(texts(p@) =~= p@.map_values(|t: String| t@));
                p
            },
            None => static_properties(root),
        }
    }

    pub fn properties_for_functional(&self, root: &str, value: Option<&CandidateValue>) -> (r: Vec<String>)
        ensures
            texts(r@) == spec_properties_for_functional(*self, root@, opt_value(value)),
    {
        let original = root;
        let root = strip_negative(root);
        if let Some(p) = self.custom_utility_properties(root) {
            assert(texts(p@) =~= p@.map_values(|t: String| t@));
            return p;
        }
        let fixed: Option<Vec<&str>> = if str_eq(root, "text") {
            Some(match value {
                Some(CandidateValue::Named(n)) => if theme_has_exec(self, "--text-", n.value.as_str()) {
                    vec!["font-size", "line-height"]
                } else {
                    vec!["color"]
                },
                Some(CandidateValue::Arbitrary(a)) => if type_is(&a.data_type, "length") || is_css_length(a.value.as_str()) {
                    vec!["font-size"]
                } else {
                    vec!["color"]
                },
                None => vec!["color"],
            })
        } else if str_eq(root, "bg") {
            Some(match value {
                Some(CandidateValue::Named(n)) => if theme_has_exec(self, "--background-image-", n.value.as_str()) {
                    vec!["background-image"]
                } else {
                    vec!["background-color"]
                },
                Some(CandidateValue::Arbitrary(a)) => if type_is(&a.data_type, "image") || type_is(&a.data_type, "url")
                    || starts_with(a.value.as_str(), "url(") || contains_text_exec(a.value.as_str(), "gradient(") {
                    vec!["background-image"]
                } else {
                    vec!["background-color"]
                },
                None => vec!["background-color"],
            })
        } else if str_eq(root, "font") && !is_color_or_width_root(root) {
            Some(match value {
                Some(CandidateValue::Named(n)) => if theme_has_exec(self, "--font-weight-", n.value.as_str()) {
                    vec!["--tw-font-weight", "font-weight"]
                } else {
                    vec!["font-family"]
                },
                Some(CandidateValue::Arbitrary(a)) => if type_is(&a.data_type, "number") || parses_as_float(a.value.as_str()) {
                    vec!["--tw-font-weight", "font-weight"]
                } else {
                    vec!["font-family"]
                },
                None => vec!["font-family"],
            })
        } else {
            None
        };
        if let Some(v) = fixed {
            let r = texts_of(v);
            assert(texts(r@) =~= spec_properties_for_functional(*self, original@, opt_value(value)));
            return r;
        }
        if is_color_or_width_root(root) {
            let is_color = match value {
                Some(CandidateValue::Named(n)) => self.has_theme_color(n.value.as_str()) || is_color_keyword_exec(n.value.as_str()),
                Some(CandidateValue::Arbitrary(a)) => value_is_arbitrary_color(a),
                None => false,
            };
            return properties_for_color_or_width(root, is_color);
        }
        functional_properties(root, value)
    }
}

/// A CSS property a compiled class sets, and whether it is important.
pub struct Property {
    pub css_property_name: String,
    pub important: bool,
}

/// What a class compiles to: the variant context its declarations sit in and its properties.
pub struct CompiledRule {
    pub context: String,
    pub properties: Vec<Property>,
    pub sort_property: Option<String>,
}

pub open spec fn property_view(p: Property) -> (Seq<char>, bool) {
    (p.css_property_name@, p.important)
}

pub open spec fn property_views(ps: Seq<Property>) -> Seq<(Seq<char>, bool)> {
    ps.map_values(|p: Property| property_view(p))
}

/// The model of a compiled rule: context, properties, and the property it sorts by.
pub type RuleView = (Seq<char>, Seq<(Seq<char>, bool)>, Option<Seq<char>>);

pub open spec fn compiled_view(r: CompiledRule) -> RuleView {
    (r.context@, property_views(r.properties@), opt_text(r.sort_property))
}

/// The root (without its `-`) and value of a utility that is not an arbitrary property.
pub open spec fn utility_root_value(kind: CandidateKindModel) -> Option<(Seq<char>, Option<CandidateValueModel>)> {
    match kind {
        CandidateKindModel::Arbitrary { .. } => None,
        CandidateKindModel::Static { root } => Some((positive_root(root), None)),
        CandidateKindModel::Functional { root, value, .. } => Some((positive_root(root), value)),
    }
}

/// The property a utility sorts by when it is not its first one.
pub open spec fn spec_utility_sort_property(kind: CandidateKindModel) -> Option<Seq<char>> {
    match utility_root_value(kind) {
        None => None,
        Some((root, value)) => {
            if root == "container"@ {
                Some("--tw-container-component"@)
            } else if root == "size"@ || root == "size-auto"@ || root == "size-fit"@ || root == "size-full"@
                || root == "size-max"@ || root == "size-min"@ || root == "size-px"@ {
                Some("size"@)
            } else if root == "space-x"@ || root == "space-x-px"@ || root == "space-x-reverse"@ {
                Some("row-gap"@)
            } else if root == "space-y"@ || root == "space-y-px"@ || root == "space-y-reverse"@ {
                Some("column-gap"@)
            } else if root == "divide-x"@ {
                Some("divide-x-width"@)
            } else if root == "divide-y"@ {
                Some("divide-y-width"@)
            } else if root == "divide-solid"@ || root == "divide-dashed"@ || root == "divide-dotted"@
                || root == "divide-double"@ || root == "divide-none"@ {
                Some("divide-style"@)
            } else if root == "divide"@ {
                Some("divide-color"@)
            } else if root == "from"@ && !spec_value_is_percentage(value) {
                Some("--tw-gradient-from"@)
            } else if root == "via"@ && !spec_value_is_percentage(value) {
                Some("--tw-gradient-via"@)
            } else if root == "to"@ && !spec_value_is_percentage(value) {
                Some("--tw-gradient-to"@)
            } else if root == "placeholder"@ {
                Some("placeholder-color"@)
            } else {
                None
            }
        },
    }
}

fn utility_root_value_exec(kind: &CandidateKind) -> (r: Option<(&str, Option<&CandidateValue>)>)
    ensures
        match r {
            Some((root, value)) => utility_root_value(crate::candidate::kind_model(*kind)) == Some((root@, opt_value(value))),
            None => utility_root_value(crate::candidate::kind_model(*kind)) is None,
        },
{
    match kind {
        CandidateKind::Arbitrary { .. } => None,
        CandidateKind::Static { root } => Some((strip_negative(root.as_str()), None)),
        CandidateKind::Functional { root, value, .. } => Some((strip_negative(root.as_str()), match value {
            Some(v) => Some(v),
            None => None,
        })),
    }
}

pub fn utility_sort_property(candidate: &Candidate) -> (r: Option<&'static str>)
    ensures
        match r {
            Some(t) => spec_utility_sort_property(candidate_model(*candidate).kind) == Some(t@),
            None => spec_utility_sort_property(candidate_model(*candidate).kind) is None,
        },
{
    let (root, value) = match utility_root_value_exec(&candidate.kind) {
        Some(pair) => pair,
        None => return None,
    };
    if str_eq(root, "container") {
        Some("--tw-container-component")
    } else if str_eq(root, "size") || str_eq(root, "size-auto") || str_eq(root, "size-fit") || str_eq(root, "size-full")
        || str_eq(root, "size-max") || str_eq(root, "size-min") || str_eq(root, "size-px") {
        Some("size")
    } else if str_eq(root, "space-x") || str_eq(root, "space-x-px") || str_eq(root, "space-x-reverse") {
        Some("row-gap")
    } else if str_eq(root, "space-y") || str_eq(root, "space-y-px") || str_eq(root, "space-y-reverse") {
        Some("column-gap")
    } else if str_eq(root, "divide-x") {
        Some("divide-x-width")
    } else if str_eq(root, "divide-y") {
        Some("divide-y-width")
    } else if str_eq(root, "divide-solid") || str_eq(root, "divide-dashed") || str_eq(root, "divide-dotted")
        || str_eq(root, "divide-double") || str_eq(root, "divide-none") {
        Some("divide-style")
    } else if str_eq(root, "divide") {
        Some("divide-color")
    } else if str_eq(root, "from") && !value_is_percentage(value) {
        Some("--tw-gradient-from")
    } else if str_eq(root, "via") && !value_is_percentage(value) {
        Some("--tw-gradient-via")
    } else if str_eq(root, "to") && !value_is_percentage(value) {
        Some("--tw-gradient-to")
    } else if str_eq(root, "placeholder") {
        Some("placeholder-color")
    } else {
        None
    }
}

/// The selector a utility's declarations sit under inside its rule: the siblings of `divide-*`
/// and `space-*`, the placeholder of `placeholder`.
pub open spec fn spec_utility_internal_context(kind: CandidateKindModel) -> Option<Seq<char>> {
    match utility_root_value(kind) {
        None => None,
        Some((root, _)) => if is_prefix("divide-"@, root) || is_prefix("space-x"@, root) || is_prefix("space-y"@, root)
            || root == "divide"@ {
            Some(":where(& > :not(:last-child))"@)
        } else if root == "placeholder"@ {
            Some("&::placeholder"@)
        } else {
            None
        },
    }
}

pub fn utility_internal_context(candidate: &Candidate) -> (r: Option<&'static str>)
    ensures
        match r {
            Some(t) => spec_utility_internal_context(candidate_model(*candidate).kind) == Some(t@),
            None => spec_utility_internal_context(candidate_model(*candidate).kind) is None,
        },
{
    let (root, _) = match utility_root_value_exec(&candidate.kind) {
        Some(pair) => pair,
        None => return None,
    };
    if starts_with(root, "divide-") || starts_with(root, "space-x") || starts_with(root, "space-y") || str_eq(root, "divide") {
        Some(":where(& > :not(:last-child))")
    } else if str_eq(root, "placeholder") {
        Some("&::placeholder")
    } else {
        None
    }
}

/// Whether a variant cannot stand outermost: an arbitrary selector that starts with a
/// combinator.
pub open spec fn spec_invalid_top_level_variant(v: VariantModel) -> bool {
    v matches VariantModel::Arbitrary { relative: true, .. }
}

pub fn invalid_top_level_variant(variant: &Variant) -> (r: bool)
    ensures
        r == spec_invalid_top_level_variant(crate::candidate::variant_model(*variant)),
{
    match &variant.kind {
        VariantKind::Arbitrary { relative, .. } => *relative,
        _ => false,
    }
}

/// The property names of a compiled utility, before the sort property is added; `None` when the
/// utility is not valid.
pub open spec fn utility_property_names(design: DesignSystem, kind: CandidateKindModel, facts: SpacingFacts) -> Option<Seq<Seq<char>>> {
    match kind {
        CandidateKindModel::Arbitrary { property, modifier, .. } => if modifier is Some && !(property == "color"@
            || property == "background-color"@ || property == "border-color"@ || property == "fill"@ || property == "stroke"@) {
            None
        } else {
            Some(seq![property])
        },
        CandidateKindModel::Static { root } => Some(spec_properties_for_root(design, root)),
        CandidateKindModel::Functional { root, value, modifier } => if !spec_functional_value_is_valid(design, root, value, modifier, facts) {
            None
        } else {
            Some(spec_properties_for_functional(design, root, value))
        },
    }
}

/// The printed variants, outermost first.
pub open spec fn outer_first_prints(vs: Seq<VariantModel>) -> Seq<Seq<char>> {
    Seq::new(vs.len(), |i: int| spec_print_variant(vs[vs.len() - 1 - i]))
}

/// What a candidate compiles to: nothing when a variant cannot stand outermost or the utility is
/// invalid or sets no property; else its variants (outermost first, then the utility's own
/// selector) joined with `:` as the context, and its properties, `--tw-sort` first when the
/// utility sorts by another property, each marked important when the candidate is.
pub open spec fn spec_compile_candidate(design: DesignSystem, c: CandidateModel, facts: SpacingFacts) -> Option<RuleView> {
    if exists|i: int| 0 <= i < c.variants.len() && spec_invalid_top_level_variant(#[trigger] c.variants[i]) {
        None
    } else {
        match utility_property_names(design, c.kind, facts) {
            None => None,
            Some(names) => if names.len() == 0 {
                None
            } else {
                let sort = spec_utility_sort_property(c.kind);
                let all = if sort is Some { seq!["--tw-sort"@] + names } else { names };
                let contexts = match spec_utility_internal_context(c.kind) {
                    Some(context) => outer_first_prints(c.variants).push(context),
                    None => outer_first_prints(c.variants),
                };
                Some((
                    crate::enforce_consistent_line_wrapping::join_seq(contexts, ":"@),
                    all.map_values(|n: Seq<char>| (n, c.important)),
                    sort,
                ))
            },
        }
    }
}

fn property_list(names: &Vec<String>, important: bool) -> (r: Vec<Property>)
    ensures
        property_views(r@) == texts(names@).map_values(|n: Seq<char>| (n, important)),
{
    let mut r: Vec<Property> = Vec::new();
    let mut i: usize = 0;
    while i < names.len()
        invariant
            i <= names@.len(),
            property_views(r@) == texts(names@).take(i as int).map_values(|n: Seq<char>| (n, important)),
        decreases names.len() - i,
    {
        let name = names[i].clone();
        let ghost before = property_views(r@);
        r.push(Property { css_property_name: name, important });
        assert(property_views(r@) =~= before.push((names@[i as int]@, important)));
        assert(texts(names@).take(i + 1).map_values(|n: Seq<char>| (n, important))
            =~= texts(names@).take(i as int).map_values(|n: Seq<char>| (n, important)).push((names@[i as int]@, important)));
        i = i + 1;
    }
    assert(texts(names@).take(names@.len() as int) =~= texts(names@));
    r
}

impl DesignSystem {
    /// Compiles a parsed candidate; `facts` tells the spacing steps of its named value and
    /// modifier.
    pub fn compile_candidate(&self, candidate: &Candidate, facts: SpacingFacts) -> (r: Option<CompiledRule>)
        ensures
            match r {
                Some(rule) => spec_compile_candidate(*self, candidate_model(*candidate), facts) == Some(compiled_view(rule)),
                None => spec_compile_candidate(*self, candidate_model(*candidate), facts) is None,
            },
    {
        let ghost c = candidate_model(*candidate);
        let mut k: usize = 0;
        while k < candidate.variants.len()
            invariant
                c == candidate_model(*candidate),
                k <= candidate.variants@.len(),
                forall|i: int| 0 <= i < k ==> !spec_invalid_top_level_variant(#[trigger] c.variants[i]),
            decreases candidate.variants.len() - k,
        {
            if invalid_top_level_variant(&candidate.variants[k]) {
                assert(spec_invalid_top_level_variant(c.variants[k as int]));
                return None;
            }
            k = k + 1;
        }
        let names: Vec<String> = match &candidate.kind {
            CandidateKind::Arbitrary { property, modifier, .. } => {
                let p = property.as_str();
                if modifier.is_some() && !(str_eq(p, "color") || str_eq(p, "background-color") || str_eq(p, "border-color")
                    || str_eq(p, "fill") || str_eq(p, "stroke")) {
                    return None;
                }
                let v = vec![property.clone()];
                assert(texts(v@) =~= seq![property@]);
                v
            },
            CandidateKind::Static { root } => self.properties_for_root(root.as_str()),
            CandidateKind::Functional { root, value, modifier } => {
                let value = match value {
                    Some(v) => Some(v),
                    None => None,
                };
                let modifier = match modifier {
                    Some(m) => Some(m),
                    None => None,
                };
                if !self.functional_value_is_valid(root.as_str(), value, modifier, facts) {
                    return None;
                }
                self.properties_for_functional(root.as_str(), value)
            },
        };
        if names.len() == 0 {
            return None;
        }
        let sort = utility_sort_property(candidate);
        let all: Vec<String> = match sort {
            Some(_) => {
                let mut all = vec!["--tw-sort".to_owned()];
                let mut i: usize = 0;
                while i < names.len()
                    invariant
                        i <= names@.len(),
                        texts(all@) == seq!["--tw-sort"@] + texts(names@).take(i as int),
                    decreases names.len() - i,
                {
                    let ghost before = texts(all@);
                    all.push(names[i].clone());
                    assert(texts(all@) =~= before.push(names@[i as int]@));
                    assert(texts(names@).take(i + 1) =~= texts(names@).take(i as int).push(names@[i as int]@));
                    i = i + 1;
                }
                assert(texts(names@).take(names@.len() as int) =~= texts(names@));
                all
            },
            None => names,
        };
        let mut contexts: Vec<String> = Vec::new();
        let n = candidate.variants.len();
        let mut j: usize = 0;
        while j < n
            invariant
                c == candidate_model(*candidate),
                n == c.variants.len(),
                j <= n,
                crate::enforce_consistent_line_wrapping::string_views(contexts@) == outer_first_prints(c.variants).take(j as int),
            decreases n - j,
        {
            let printed = candidate.variants[n - 1 - j].print();
            let ghost before = crate::enforce_consistent_line_wrapping::string_views(contexts@);
            contexts.push(printed);
            assert(crate::enforce_consistent_line_wrapping::string_views(contexts@) =~= before.push(printed@));
            assert(outer_first_prints(c.variants).take(j + 1) =~= outer_first_prints(c.variants).take(j as int).push(printed@));
            j = j + 1;
        }
        assert(outer_first_prints(c.variants).take(n as int) =~= outer_first_prints(c.variants));
        if let Some(inner) = utility_internal_context(candidate) {
            let ghost before = crate::enforce_consistent_line_wrapping::string_views(contexts@);
            contexts.push(inner.to_owned());
            assert(crate::enforce_consistent_line_wrapping::string_views(contexts@) =~= before.push(inner@));
        }
        proof {
            reveal_strlit(":");
        }
        let context = crate::enforce_consistent_line_wrapping::join_strings(&contexts, ":");
        let properties = property_list(&all, candidate.important);
        let rule = CompiledRule {
            context,
            properties,
            sort_property: match sort {
                Some(t) => Some(t.to_owned()),
                None => None,
            },
        };
        Some(rule)
    }
}

fn opt_str_eq(a: &Option<String>, b: &Option<String>) -> (r: bool)
    ensures
        r == (opt_text(*a) == opt_text(*b)),
{
    match (a, b) {
        (Some(x), Some(y)) => str_eq(x.as_str(), y.as_str()),
        (None, None) => true,
        _ => false,
    }
}

fn same_rule(a: &CompiledRule, b: &CompiledRule) -> (r: bool)
    ensures
        r == (compiled_view(*a) == compiled_view(*b)),
{
    if !str_eq(a.context.as_str(), b.context.as_str()) || !opt_str_eq(&a.sort_property, &b.sort_property)
        || a.properties.len() != b.properties.len() {
        proof {
            if a.properties.len() != b.properties.len() {
                assert(property_views(a.properties@).len() != property_views(b.properties@).len());
            }
        }
        return false;
    }
    let mut i: usize = 0;
    while i < a.properties.len()
        invariant
            a.properties@.len() == b.properties@.len(),
            i <= a.properties@.len(),
            forall|k: int| 0 <= k < i ==> property_view(#[trigger] a.properties@[k]) == property_view(b.properties@[k]),
        decreases a.properties.len() - i,
    {
        let pa = &a.properties[i];
        let pb = &b.properties[i];
        if !str_eq(pa.css_property_name.as_str(), pb.css_property_name.as_str()) || pa.important != pb.important {
            assert(property_views(a.properties@)[i as int] != property_views(b.properties@)[i as int]);
            return false;
        }
        i = i + 1;
    }
    assert(property_views(a.properties@) =~= property_views(b.properties@));
    true
}

/// `rules` with each run of equal neighbours kept once (`Vec::dedup`).
pub open spec fn dedup_views(rules: Seq<RuleView>) -> Seq<RuleView>
    decreases rules.len(),
{
    if rules.len() <= 1 {
        rules
    } else {
        let rest = dedup_views(rules.drop_last());
        if rules.last() == rules[rules.len() - 2] { rest } else { rest.push(rules.last()) }
    }
}

pub open spec fn compiled_views(rules: Seq<CompiledRule>) -> Seq<RuleView> {
    rules.map_values(|r: CompiledRule| compiled_view(r))
}

/// The rules the candidates compile to, in order, without repeats of a neighbour.
pub open spec fn spec_compile_candidates(design: DesignSystem, candidates: Seq<CandidateModel>, facts: Seq<SpacingFacts>) -> Seq<RuleView> {
    dedup_views(compiled_in_order(design, candidates, facts))
}

/// The rules of the candidates that compile, in order.
pub open spec fn compiled_in_order(design: DesignSystem, candidates: Seq<CandidateModel>, facts: Seq<SpacingFacts>) -> Seq<RuleView>
    decreases candidates.len(),
{
    if candidates.len() == 0 {
        Seq::empty()
    } else {
        let rest = compiled_in_order(design, candidates.drop_last(), facts.take(candidates.len() - 1));
        match spec_compile_candidate(design, candidates.last(), facts[candidates.len() - 1]) {
            Some(rule) => rest.push(rule),
            None => rest,
        }
    }
}

impl DesignSystem {
    /// Compiles the candidates a class parses to, each with its spacing facts, and drops a rule
    /// equal to the one before it.
    pub fn compile_candidates(&self, candidates: &Vec<Candidate>, facts: &Vec<SpacingFacts>) -> (r: Vec<CompiledRule>)
        requires
            candidates@.len() == facts@.len(),
        ensures
            compiled_views(r@) == spec_compile_candidates(*self, crate::candidate::candidate_models(candidates@), facts@),
    {
        let ghost cs = crate::candidate::candidate_models(candidates@);
        let ghost compiled: Seq<RuleView> = Seq::empty();
        let mut out: Vec<CompiledRule> = Vec::new();
        let mut i: usize = 0;
        while i < candidates.len()
            invariant
                cs == crate::candidate::candidate_models(candidates@),
                candidates@.len() == facts@.len(),
                i <= candidates@.len(),
                compiled == compiled_in_order(*self, cs.take(i as int), facts@.take(i as int)),
                compiled_views(out@) == dedup_views(compiled),
                out@.len() > 0 ==> compiled.len() > 0 && compiled_view(out@.last()) == compiled.last(),
                compiled.len() > 0 ==> out@.len() > 0,
            decreases candidates.len() - i,
        {
            assert(cs.take(i + 1).drop_last() =~= cs.take(i as int));
            assert(facts@.take(i + 1).take(i as int) =~= facts@.take(i as int));
            assert(cs.take(i + 1).last() == cs[i as int]);
            if let Some(rule) = self.compile_candidate(&candidates[i], facts[i]) {
                let ghost previous = compiled;
                proof {
                    compiled = compiled.push(compiled_view(rule));
                    assert(compiled.drop_last() =~= previous);
                    if compiled.len() > 1 {
                        assert(compiled[compiled.len() - 2] == previous.last());
                    }
                }
                let repeat = out.len() > 0 && same_rule(&out[out.len() - 1], &rule);
                if !repeat {
                    let ghost before = compiled_views(out@);
                    out.push(rule);
                    assert(compiled_views(out@) =~= before.push(compiled.last()));
                }
            }
            i = i + 1;
        }
        assert(cs.take(i as int) =~= cs);
        assert(facts@.take(i as int) =~= facts@);
        out
    }
}

/// Whether two classes compile to rules in the same contexts over the same properties: as many
/// rules, and each rule of the first matched by one of the second with its context and as many
/// properties, all of its property names among them.
pub open spec fn spec_same_rule_context(left: Seq<RuleView>, right: Seq<RuleView>) -> bool {
    left.len() == right.len() && forall|i: int| 0 <= i < left.len() ==> #[trigger] has_cover(left[i], right)
}

/// Whether a rule of `right` covers `l`.
pub open spec fn has_cover(l: RuleView, right: Seq<RuleView>) -> bool {
    exists|j: int| 0 <= j < right.len() && #[trigger] rule_covers(l, right[j])
}

pub open spec fn rule_covers(l: RuleView, r: RuleView) -> bool {
    l.0 == r.0 && l.1.len() == r.1.len() && forall|p: int| 0 <= p < l.1.len() ==> #[trigger] name_in(l.1[p].0, r.1)
}

/// Whether one of `props` is named `name`.
pub open spec fn name_in(name: Seq<char>, props: Seq<(Seq<char>, bool)>) -> bool {
    exists|q: int| 0 <= q < props.len() && (#[trigger] props[q]).0 == name
}

fn name_among(name: &str, props: &Vec<Property>) -> (r: bool)
    ensures
        r == name_in(name@, property_views(props@)),
{
    let mut q: usize = 0;
    while q < props.len()
        invariant
            q <= props@.len(),
            forall|k: int| 0 <= k < q ==> name@ != (#[trigger] property_views(props@)[k]).0,
        decreases props.len() - q,
    {
        if str_eq(name, props[q].css_property_name.as_str()) {
            assert(property_views(props@)[q as int].0 == name@);
            return true;
        }
        q = q + 1;
    }
    false
}

fn covers(l: &CompiledRule, r: &CompiledRule) -> (res: bool)
    ensures
        res == rule_covers(compiled_view(*l), compiled_view(*r)),
{
    let ghost lv = compiled_view(*l);
    let ghost rv = compiled_view(*r);
    if !str_eq(l.context.as_str(), r.context.as_str()) || l.properties.len() != r.properties.len() {
        return false;
    }
    let mut p: usize = 0;
    while p < l.properties.len()
        invariant
            lv == compiled_view(*l),
            rv == compiled_view(*r),
            p <= l.properties@.len(),
            forall|k: int| 0 <= k < p ==> #[trigger] name_in(lv.1[k].0, rv.1),
        decreases l.properties.len() - p,
    {
        if !name_among(l.properties[p].css_property_name.as_str(), &r.properties) {
            assert(lv.1[p as int].0 == l.properties@[p as int].css_property_name@);
            return false;
        }
        assert(lv.1[p as int].0 == l.properties@[p as int].css_property_name@);
        p = p + 1;
    }
    true
}

pub fn same_rule_context(left: &Vec<CompiledRule>, right: &Vec<CompiledRule>) -> (r: bool)
    ensures
        r == spec_same_rule_context(compiled_views(left@), compiled_views(right@)),
{
    let ghost lv = compiled_views(left@);
    let ghost rv = compiled_views(right@);
    if left.len() != right.len() {
        return false;
    }
    let mut i: usize = 0;
    while i < left.len()
        invariant
            lv == compiled_views(left@),
            rv == compiled_views(right@),
            left@.len() == right@.len(),
            i <= left@.len(),
            forall|k: int| 0 <= k < i ==> #[trigger] has_cover(lv[k], rv),
        decreases left.len() - i,
    {
        let mut j: usize = 0;
        let mut found = false;
        while j < right.len() && !found
            invariant
                lv == compiled_views(left@),
                rv == compiled_views(right@),
                i < left@.len(),
                j <= right@.len(),
                found ==> has_cover(lv[i as int], rv),
                !found ==> forall|m: int| 0 <= m < j ==> !#[trigger] rule_covers(lv[i as int], rv[m]),
            decreases right.len() - j + (if found { 0int } else { 1int }),
        {
            if covers(&left[i], &right[j]) {
                assert(rule_covers(lv[i as int], rv[j as int]));
                found = true;
            } else {
                j = j + 1;
            }
        }
        if !found {
            assert(!has_cover(lv[i as int], rv));
            return false;
        }
        i = i + 1;
    }
    true
}

/// Two classes of a list that set the same properties in the same contexts, and the properties
/// of the second.
pub struct ClassConflict {
    pub class_name: String,
    pub conflicting_class_name: String,
    pub properties: Vec<Property>,
}

pub type ConflictModel = (Seq<char>, Seq<char>, Seq<(Seq<char>, bool)>);

pub open spec fn class_conflict_view(c: ClassConflict) -> ConflictModel {
    (c.class_name@, c.conflicting_class_name@, property_views(c.properties@))
}

/// The properties of all the rules, in order.
pub open spec fn all_properties(rules: Seq<RuleView>) -> Seq<(Seq<char>, bool)>
    decreases rules.len(),
{
    if rules.len() == 0 {
        Seq::empty()
    } else {
        all_properties(rules.drop_last()) + rules.last().1
    }
}

/// The conflicts of the pair (`left`, `right`): one when the classes differ in position, the
/// first compiles to something, and they share their rule contexts.
pub open spec fn pair_conflict(classes: Seq<Seq<char>>, compiled: Seq<Seq<RuleView>>, left: int, right: int) -> Seq<ConflictModel> {
    if left != right && compiled[left].len() > 0 && spec_same_rule_context(compiled[left], compiled[right]) {
        seq![(classes[left], classes[right], all_properties(compiled[right]))]
    } else {
        Seq::empty()
    }
}

/// The property names a rule sets, in order.
pub open spec fn property_names_of(rule: RuleView) -> Seq<Seq<char>> {
    rule.1.map_values(|p: (Seq<char>, bool)| p.0)
}

proof fn lemma_cover_back(l: RuleView, r: RuleView)
    requires
        rule_covers(l, r),
        property_names_of(l).no_duplicates(),
        property_names_of(r).no_duplicates(),
    ensures
        rule_covers(r, l),
{
    broadcast use vstd::seq_lib::seq_to_set_is_finite;
    let a = property_names_of(l);
    let b = property_names_of(r);
    a.unique_seq_to_set();
    b.unique_seq_to_set();
    assert forall|x: Seq<char>| a.to_set().contains(x) implies b.to_set().contains(x) by {
        let p = choose|p: int| 0 <= p < a.len() && a[p] == x;
        assert(name_in(l.1[p].0, r.1));
        let q = choose|q: int| 0 <= q < r.1.len() && (#[trigger] r.1[q]).0 == l.1[p].0;
        assert(b[q] == x);
    }
    vstd::set_lib::lemma_subset_equality(a.to_set(), b.to_set());
    assert forall|q: int| 0 <= q < r.1.len() implies #[trigger] name_in(r.1[q].0, l.1) by {
        assert(b[q] == r.1[q].0);
        assert(b.to_set().contains(b[q]));
        assert(a.to_set().contains(b[q]));
        let p = choose|p: int| 0 <= p < a.len() && a[p] == b[q];
        assert(l.1[p].0 == r.1[q].0);
    }
}

/// Whether each rule of `rules` names each of its properties once.
pub open spec fn names_once(rules: Seq<RuleView>) -> bool {
    forall|k: int| 0 <= k < rules.len() ==> property_names_of(#[trigger] rules[k]).no_duplicates()
}

/// Conflicts come in pairs and never pair a class with itself: when each of two classes
/// compiles to at most one rule and no rule names a property twice, the first conflicts with
/// the second exactly when the second conflicts with the first.
pub proof fn conflicts_are_symmetric(classes: Seq<Seq<char>>, compiled: Seq<Seq<RuleView>>, left: int, right: int)
    requires
        0 <= left < compiled.len(),
        0 <= right < compiled.len(),
        compiled[left].len() <= 1,
        compiled[right].len() <= 1,
        names_once(compiled[left]),
        names_once(compiled[right]),
    ensures
        pair_conflict(classes, compiled, left, left).len() == 0,
        (pair_conflict(classes, compiled, left, right).len() > 0) == (pair_conflict(classes, compiled, right, left).len() > 0),
{
    let a = compiled[left];
    let b = compiled[right];
    if a.len() == 1 && spec_same_rule_context(a, b) {
        assert(has_cover(a[0], b));
        let j = choose|j: int| 0 <= j < b.len() && #[trigger] rule_covers(a[0], b[j]);
        lemma_cover_back(a[0], b[0]);
        assert(rule_covers(b[0], a[0]));
        assert(has_cover(b[0], a));
        assert(spec_same_rule_context(b, a));
    }
    if b.len() == 1 && spec_same_rule_context(b, a) {
        assert(has_cover(b[0], a));
        let j = choose|j: int| 0 <= j < a.len() && #[trigger] rule_covers(b[0], a[j]);
        lemma_cover_back(b[0], a[0]);
        assert(rule_covers(a[0], b[0]));
        assert(has_cover(a[0], b));
        assert(spec_same_rule_context(a, b));
    }
}

/// The conflicts of the pairs whose first class is `left`, for the second classes before `n`.
pub open spec fn row_conflicts(classes: Seq<Seq<char>>, compiled: Seq<Seq<RuleView>>, left: int, n: int) -> Seq<ConflictModel>
    decreases n,
{
    if n <= 0 {
        Seq::empty()
    } else {
        row_conflicts(classes, compiled, left, n - 1) + pair_conflict(classes, compiled, left, n - 1)
    }
}

/// The conflicts of every ordered pair of classes, by first class then second.
pub open spec fn all_conflicts(classes: Seq<Seq<char>>, compiled: Seq<Seq<RuleView>>, n: int) -> Seq<ConflictModel>
    decreases n,
{
    if n <= 0 {
        Seq::empty()
    } else {
        all_conflicts(classes, compiled, n - 1) + row_conflicts(classes, compiled, n - 1, classes.len() as int)
    }
}

/// The conflict of the pair `left`, `right`, as the list reports it.
pub open spec fn conflict_of(classes: Seq<Seq<char>>, compiled: Seq<Seq<RuleView>>, left: int, right: int) -> ConflictModel {
    (classes[left], classes[right], all_properties(compiled[right]))
}

/// Whether `c` is the conflict of the pair `left`, `right`.
pub open spec fn is_conflict_of(c: ConflictModel, classes: Seq<Seq<char>>, compiled: Seq<Seq<RuleView>>, left: int, right: int) -> bool {
    c == conflict_of(classes, compiled, left, right)
}

proof fn lemma_row_members(classes: Seq<Seq<char>>, compiled: Seq<Seq<RuleView>>, left: int, m: int)
    ensures
        forall|c: ConflictModel| #[trigger] row_conflicts(classes, compiled, left, m).contains(c) ==> exists|j: int| 0 <= j < m
            && pair_conflict(classes, compiled, left, j).len() > 0
            && #[trigger] is_conflict_of(c, classes, compiled, left, j),
        forall|j: int| 0 <= j < m && pair_conflict(classes, compiled, left, j).len() > 0
            ==> row_conflicts(classes, compiled, left, m).contains(#[trigger] conflict_of(classes, compiled, left, j)),
    decreases m,
{
    if m > 0 {
        lemma_row_members(classes, compiled, left, m - 1);
        let prev = row_conflicts(classes, compiled, left, m - 1);
        let here = pair_conflict(classes, compiled, left, m - 1);
        let row = row_conflicts(classes, compiled, left, m);
        assert(row == prev + here);
        assert forall|c: ConflictModel| #[trigger] row.contains(c) implies exists|j: int| 0 <= j < m
            && pair_conflict(classes, compiled, left, j).len() > 0
            && #[trigger] is_conflict_of(c, classes, compiled, left, j) by {
            let k = choose|k: int| 0 <= k < row.len() && row[k] == c;
            if k < prev.len() {
                assert(prev[k] == c);
                assert(prev.contains(c));
                let j = choose|j: int| 0 <= j < m - 1 && pair_conflict(classes, compiled, left, j).len() > 0
                    && #[trigger] is_conflict_of(c, classes, compiled, left, j);
                assert(is_conflict_of(c, classes, compiled, left, j));
            } else {
                assert(row[k] == here[0]);
                assert(pair_conflict(classes, compiled, left, m - 1).len() > 0);
                assert(is_conflict_of(c, classes, compiled, left, m - 1));
            }
        }
        assert forall|j: int| 0 <= j < m && pair_conflict(classes, compiled, left, j).len() > 0
            implies row.contains(#[trigger] conflict_of(classes, compiled, left, j)) by {
            if j < m - 1 {
                assert(prev.contains(conflict_of(classes, compiled, left, j)));
                let k = choose|k: int| 0 <= k < prev.len() && prev[k] == conflict_of(classes, compiled, left, j);
                assert(row[k] == prev[k]);
            } else {
                assert(row[prev.len() as int] == here[0]);
            }
        }
    }
}

proof fn lemma_all_members(classes: Seq<Seq<char>>, compiled: Seq<Seq<RuleView>>, n: int)
    ensures
        forall|c: ConflictModel| #[trigger] all_conflicts(classes, compiled, n).contains(c) ==> exists|i: int, j: int| 0 <= i < n && 0 <= j < classes.len()
            && pair_conflict(classes, compiled, i, j).len() > 0
            && #[trigger] is_conflict_of(c, classes, compiled, i, j),
        forall|i: int, j: int| 0 <= i < n && 0 <= j < classes.len() && pair_conflict(classes, compiled, i, j).len() > 0
            ==> all_conflicts(classes, compiled, n).contains(#[trigger] conflict_of(classes, compiled, i, j)),
    decreases n,
{
    if n > 0 {
        lemma_all_members(classes, compiled, n - 1);
        lemma_row_members(classes, compiled, n - 1, classes.len() as int);
        let prev = all_conflicts(classes, compiled, n - 1);
        let row = row_conflicts(classes, compiled, n - 1, classes.len() as int);
        let all = all_conflicts(classes, compiled, n);
        assert(all == prev + row);
        assert forall|c: ConflictModel| #[trigger] all.contains(c) implies exists|i: int, j: int| 0 <= i < n && 0 <= j < classes.len()
            && pair_conflict(classes, compiled, i, j).len() > 0
            && #[trigger] is_conflict_of(c, classes, compiled, i, j) by {
            let k = choose|k: int| 0 <= k < all.len() && all[k] == c;
            if k < prev.len() {
                assert(prev[k] == c);
                assert(prev.contains(c));
                let (i, j) = choose|i: int, j: int| 0 <= i < n - 1 && 0 <= j < classes.len()
                    && pair_conflict(classes, compiled, i, j).len() > 0
                    && #[trigger] is_conflict_of(c, classes, compiled, i, j);
                assert(is_conflict_of(c, classes, compiled, i, j));
            } else {
                assert(row[k - prev.len()] == c);
                assert(row.contains(c));
                let j = choose|j: int| 0 <= j < classes.len() && pair_conflict(classes, compiled, n - 1, j).len() > 0
                    && #[trigger] is_conflict_of(c, classes, compiled, n - 1, j);
                assert(is_conflict_of(c, classes, compiled, n - 1, j));
            }
        }
        assert forall|i: int, j: int| 0 <= i < n && 0 <= j < classes.len() && pair_conflict(classes, compiled, i, j).len() > 0
            implies all.contains(#[trigger] conflict_of(classes, compiled, i, j)) by {
            if i < n - 1 {
                assert(prev.contains(conflict_of(classes, compiled, i, j)));
                let k = choose|k: int| 0 <= k < prev.len() && prev[k] == conflict_of(classes, compiled, i, j);
                assert(all[k] == prev[k]);
            } else {
                assert(row.contains(conflict_of(classes, compiled, i, j)));
                let k = choose|k: int| 0 <= k < row.len() && row[k] == conflict_of(classes, compiled, i, j);
                assert(all[prev.len() + k] == row[k]);
            }
        }
    }
}

/// The list of conflicts that `conflicts_between` reports is symmetric: when every class
/// compiles to at most one rule and no rule names a property twice, each reported conflict is
/// that of two different classes of the list, with the properties of the second, and the
/// conflict of the same two classes the other way round is reported too. Every conflicting
/// pair of different classes is reported.
pub proof fn reported_conflicts_are_symmetric(classes: Seq<Seq<char>>, compiled: Seq<Seq<RuleView>>)
    requires
        classes.len() == compiled.len(),
        forall|k: int| 0 <= k < compiled.len() ==> (#[trigger] compiled[k]).len() <= 1 && names_once(compiled[k]),
    ensures
        forall|c: ConflictModel| #[trigger] all_conflicts(classes, compiled, classes.len() as int).contains(c) ==> exists|i: int, j: int|
            0 <= i < classes.len() && 0 <= j < classes.len() && i != j
            && #[trigger] is_conflict_of(c, classes, compiled, i, j)
            && all_conflicts(classes, compiled, classes.len() as int).contains(conflict_of(classes, compiled, j, i)),
        forall|i: int, j: int| 0 <= i < classes.len() && 0 <= j < classes.len() && i != j
            && pair_conflict(classes, compiled, i, j).len() > 0
            ==> all_conflicts(classes, compiled, classes.len() as int).contains(#[trigger] conflict_of(classes, compiled, i, j)),
{
    let n = classes.len() as int;
    let all = all_conflicts(classes, compiled, n);
    lemma_all_members(classes, compiled, n);
    assert forall|c: ConflictModel| #[trigger] all.contains(c) implies exists|i: int, j: int|
        0 <= i < n && 0 <= j < n && i != j
        && #[trigger] is_conflict_of(c, classes, compiled, i, j)
        && all.contains(conflict_of(classes, compiled, j, i)) by {
        let (i, j) = choose|i: int, j: int| 0 <= i < n && 0 <= j < classes.len()
            && pair_conflict(classes, compiled, i, j).len() > 0
            && #[trigger] is_conflict_of(c, classes, compiled, i, j);
        conflicts_are_symmetric(classes, compiled, i, j);
        assert(i != j);
        assert(pair_conflict(classes, compiled, j, i).len() > 0);
        assert(all.contains(conflict_of(classes, compiled, j, i)));
        assert(is_conflict_of(c, classes, compiled, i, j));
    }
}

pub open spec fn compiled_lists(compiled: Seq<Vec<CompiledRule>>) -> Seq<Seq<RuleView>> {
    compiled.map_values(|v: Vec<CompiledRule>| compiled_views(v@))
}

fn rules_properties(rules: &Vec<CompiledRule>) -> (r: Vec<Property>)
    ensures
        property_views(r@) == all_properties(compiled_views(rules@)),
{
    let ghost rv = compiled_views(rules@);
    let mut out: Vec<Property> = Vec::new();
    let mut i: usize = 0;
    while i < rules.len()
        invariant
            rv == compiled_views(rules@),
            i <= rules@.len(),
            property_views(out@) == all_properties(rv.take(i as int)),
        decreases rules.len() - i,
    {
        assert(rv.take(i + 1).drop_last() =~= rv.take(i as int));
        let ps = &rules[i].properties;
        let ghost start = property_views(out@);
        let mut k: usize = 0;
        while k < ps.len()
            invariant
                k <= ps@.len(),
                property_views(out@) == start + property_views(ps@).take(k as int),
            decreases ps.len() - k,
        {
            let ghost before = property_views(out@);
            out.push(Property { css_property_name: ps[k].css_property_name.clone(), important: ps[k].important });
            assert(property_views(out@) =~= before.push(property_view(ps@[k as int])));
            assert(property_views(ps@).take(k + 1) =~= property_views(ps@).take(k as int).push(property_view(ps@[k as int])));
            k = k + 1;
        }
        assert(property_views(ps@).take(k as int) =~= property_views(ps@));
        assert(rv.take(i + 1).last() == rv[i as int]);
        i = i + 1;
    }
    assert(rv.take(i as int) =~= rv);
    out
}

/// The conflicts between the classes of a list, given what each compiles to.
pub fn conflicts_between(classes: &Vec<&str>, compiled: &Vec<Vec<CompiledRule>>) -> (r: Vec<ClassConflict>)
    requires
        classes@.len() == compiled@.len(),
    ensures
        r@.map_values(|c: ClassConflict| class_conflict_view(c))
            == all_conflicts(crate::text::views(classes@), compiled_lists(compiled@), classes@.len() as int),
{
    let ghost names = crate::text::views(classes@);
    let ghost lists = compiled_lists(compiled@);
    let n = classes.len();
    let mut out: Vec<ClassConflict> = Vec::new();
    let mut left: usize = 0;
    while left < n
        invariant
            names == crate::text::views(classes@),
            lists == compiled_lists(compiled@),
            n == classes@.len(),
            n == compiled@.len(),
            left <= n,
            out@.map_values(|c: ClassConflict| class_conflict_view(c)) == all_conflicts(names, lists, left as int),
        decreases n - left,
    {
        let ghost row_start = out@.map_values(|c: ClassConflict| class_conflict_view(c));
        let mut right: usize = 0;
        while right < n
            invariant
                names == crate::text::views(classes@),
                lists == compiled_lists(compiled@),
                n == classes@.len(),
                n == compiled@.len(),
                left < n,
                right <= n,
                out@.map_values(|c: ClassConflict| class_conflict_view(c)) == row_start + row_conflicts(names, lists, left as int, right as int),
            decreases n - right,
        {
            let ghost before = out@.map_values(|c: ClassConflict| class_conflict_view(c));
            assert(lists[left as int] == compiled_views(compiled@[left as int]@));
            assert(lists[right as int] == compiled_views(compiled@[right as int]@));
            if left != right && compiled[left].len() > 0 && same_rule_context(&compiled[left], &compiled[right]) {
                let conflict = ClassConflict {
                    class_name: classes[left].to_owned(),
                    conflicting_class_name: classes[right].to_owned(),
                    properties: rules_properties(&compiled[right]),
                };
                out.push(conflict);
                assert(out@.map_values(|c: ClassConflict| class_conflict_view(c)) =~= before.push(class_conflict_view(conflict)));
                assert(row_start + row_conflicts(names, lists, left as int, right + 1)
                    =~= before + pair_conflict(names, lists, left as int, right as int));
            } else {
                assert(row_start + row_conflicts(names, lists, left as int, right + 1)
                    =~= before + pair_conflict(names, lists, left as int, right as int));
            }
            right = right + 1;
        }
        assert(all_conflicts(names, lists, left + 1) =~= all_conflicts(names, lists, left as int) + row_conflicts(names, lists, left as int, n as int));
        left = left + 1;
    }
    out
}

/// The word at `i` of a bit set of variant orders, zero past its end.
pub open spec fn limb(v: Seq<u64>, i: int) -> int {
    if 0 <= i < v.len() { v[i] as int } else { 0 }
}

/// How two variant bit sets compare from their words below `i` down: -1, 0 or 1.
pub open spec fn variant_bits_order(left: Seq<u64>, right: Seq<u64>, i: int) -> int
    decreases i,
{
    if i <= 0 {
        0
    } else if limb(left, i - 1) == limb(right, i - 1) {
        variant_bits_order(left, right, i - 1)
    } else if limb(left, i - 1) < limb(right, i - 1) {
        -1
    } else {
        1
    }
}

/// How two variant bit sets compare as numbers, the highest word first.
pub open spec fn variant_bits_comparison(left: Seq<u64>, right: Seq<u64>) -> int {
    variant_bits_order(left, right, if left.len() > right.len() { left.len() as int } else { right.len() as int })
}

/// -1, 0 or 1 for `Less`, `Equal` or `Greater`.
pub open spec fn ordering_sign(o: Ordering) -> int {
    match o {
        Ordering::Less => -1,
        Ordering::Equal => 0,
        Ordering::Greater => 1,
    }
}

fn variant_bits_sign(left: &Vec<u64>, right: &Vec<u64>) -> (r: i8)
    ensures
        r as int == variant_bits_comparison(left@, right@),
        -1 <= r <= 1,
{
    let mut index: usize = if left.len() > right.len() { left.len() } else { right.len() };
    while index > 0
        invariant
            index <= left@.len() || index <= right@.len(),
            variant_bits_comparison(left@, right@) == variant_bits_order(left@, right@, index as int),
        decreases index,
    {
        let i = index - 1;
        let l: u64 = if i < left.len() { left[i] } else { 0 };
        let r: u64 = if i < right.len() { right[i] } else { 0 };
        if l != r {
            return if l < r { -1 } else { 1 };
        }
        index = i;
    }
    0
}

pub fn compare_variant_bits(left: &Vec<u64>, right: &Vec<u64>) -> (r: Ordering)
    ensures
        ordering_sign(r) == variant_bits_comparison(left@, right@),
{
    let sign = variant_bits_sign(left, right);
    if sign < 0 {
        Ordering::Less
    } else if sign == 0 {
        Ordering::Equal
    } else {
        Ordering::Greater
    }
}

/// How two sorted lists of property ranks compare: the first difference decides, and a list
/// that goes on where the other ends comes first.
pub open spec fn property_order_comparison(left: Seq<u16>, right: Seq<u16>, i: int) -> int
    decreases left.len() + right.len() - i,
{
    if i < 0 || (i >= left.len() && i >= right.len()) {
        0
    } else if i >= right.len() {
        -1
    } else if i >= left.len() {
        1
    } else if left[i] == right[i] {
        property_order_comparison(left, right, i + 1)
    } else if left[i] < right[i] {
        -1
    } else {
        1
    }
}

fn property_order_sign(left: &Vec<u16>, right: &Vec<u16>) -> (r: i8)
    ensures
        r as int == property_order_comparison(left@, right@, 0),
        -1 <= r <= 1,
{
    let mut i: usize = 0;
    loop
        invariant
            property_order_comparison(left@, right@, 0) == property_order_comparison(left@, right@, i as int),
            i <= left@.len() || i <= right@.len(),
        decreases left@.len() + right@.len() - i,
    {
        if i >= left.len() && i >= right.len() {
            return 0;
        }
        if i >= right.len() {
            return -1;
        }
        if i >= left.len() {
            return 1;
        }
        if left[i] != right[i] {
            return if left[i] < right[i] { -1 } else { 1 };
        }
        i = i + 1;
    }
}

pub fn compare_property_order(left: &Vec<u16>, right: &Vec<u16>) -> (r: Ordering)
    ensures
        ordering_sign(r) == property_order_comparison(left@, right@, 0),
{
    let sign = property_order_sign(left, right);
    if sign < 0 {
        Ordering::Less
    } else if sign == 0 {
        Ordering::Equal
    } else {
        Ordering::Greater
    }
}

pub proof fn lemma_dedup_last(rules: Seq<RuleView>)
    requires
        rules.len() > 0,
    ensures
        dedup_views(rules).len() > 0,
        dedup_views(rules).last() == rules.last(),
    decreases rules.len(),
{
    if rules.len() > 1 {
        lemma_dedup_last(rules.drop_last());
    }
}

/// The rules a class compiles to hold no two equal neighbours.
pub proof fn compiled_rules_have_no_repeats(rules: Seq<RuleView>)
    ensures
        forall|i: int| 0 <= i < dedup_views(rules).len() - 1 ==> #[trigger] dedup_views(rules)[i] != dedup_views(rules)[i + 1],
    decreases rules.len(),
{
    if rules.len() > 1 {
        compiled_rules_have_no_repeats(rules.drop_last());
        lemma_dedup_last(rules.drop_last());
        let rest = dedup_views(rules.drop_last());
        assert(rules.drop_last().last() == rules[rules.len() - 2]);
        if rules.last() != rules[rules.len() - 2] {
            let all = rest.push(rules.last());
            assert forall|i: int| 0 <= i < all.len() - 1 implies #[trigger] all[i] != all[i + 1] by {
                if i < rest.len() - 1 {
                    assert(all[i] == rest[i] && all[i + 1] == rest[i + 1]);
                } else {
                    assert(all[i] == rest.last());
                }
            }
        }
    }
}

} // verus!
