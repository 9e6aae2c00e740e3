//! Variant registrations and the built-in variant table of a Tailwind design system.

use vstd::prelude::*;
use crate::text::str_eq;

verus! {

pub const ARBITRARY_VARIANT_ORDER: u32 = 1024;
pub const MAX_VARIANT_ORDER: u32 = 100;
pub const THEME_VARIANT_ORDER: u32 = 200;
pub const THEME_VARIANT_RANGE: u32 = 64;

/// What kind of rule a variant produces, as a set of bits: style rules, at-rules, and `not`.
#[derive(PartialEq, Eq, Structural, Clone, Copy)]
pub struct Compounds {
    pub bits: u8,
}

impl Compounds {
    /// The variant produces a style rule.
    pub fn style_rules() -> (r: Compounds)
        ensures
            r.bits == 1,
    {
        Compounds { bits: 1 }
    }

    /// The variant produces an at-rule.
    pub fn at_rules() -> (r: Compounds)
        ensures
            r.bits == 2,
    {
        Compounds { bits: 2 }
    }

    pub fn empty() -> (r: Compounds)
        ensures
            r.bits == 0,
    {
        Compounds { bits: 0 }
    }

    /// The union of two sets.
    pub fn union(self, other: Compounds) -> (r: Compounds)
        ensures
            r.bits == self.bits | other.bits,
    {
        Compounds { bits: self.bits | other.bits }
    }

    /// Whether the two sets share a bit.
    pub fn intersects(self, other: Compounds) -> (r: bool)
        ensures
            r == (self.bits & other.bits != 0),
    {
        self.bits & other.bits != 0
    }
}

#[derive(PartialEq, Eq, Structural, Clone, Copy)]
pub enum UtilityKind {
    Static,
    Functional,
}

/// How a variant root is registered: its sort order, what it compounds as, and for compound
/// variants what they accept inside them.
#[derive(PartialEq, Eq, Structural, Clone, Copy)]
pub enum VariantRegistration {
    Static { order: u32, compounds: Compounds },
    Functional { order: u32, compounds: Compounds },
    Compound { order: u32, compounds: Compounds, compounds_with: Compounds },
}

impl VariantRegistration {
    pub open spec fn spec_order(self) -> u32 {
        match self {
            VariantRegistration::Static { order, .. } => order,
            VariantRegistration::Functional { order, .. } => order,
            VariantRegistration::Compound { order, .. } => order,
        }
    }

    pub open spec fn spec_compounds(self) -> Compounds {
        match self {
            VariantRegistration::Static { compounds, .. } => compounds,
            VariantRegistration::Functional { compounds, .. } => compounds,
            VariantRegistration::Compound { compounds, .. } => compounds,
        }
    }

    /// What a compound variant accepts inside it; nothing for the other kinds.
    pub open spec fn spec_compounds_with(self) -> Compounds {
        match self {
            VariantRegistration::Compound { compounds_with, .. } => compounds_with,
            _ => Compounds { bits: 0 },
        }
    }

    pub fn order(self) -> (r: u32)
        ensures
            r == self.spec_order(),
    {
        match self {
            VariantRegistration::Static { order, .. } => order,
            VariantRegistration::Functional { order, .. } => order,
            VariantRegistration::Compound { order, .. } => order,
        }
    }

    pub fn compounds(self) -> (r: Compounds)
        ensures
            r == self.spec_compounds(),
    {
        match self {
            VariantRegistration::Static { compounds, .. } => compounds,
            VariantRegistration::Functional { compounds, .. } => compounds,
            VariantRegistration::Compound { compounds, .. } => compounds,
        }
    }

    pub fn compounds_with(self) -> (r: Compounds)
        ensures
            r == self.spec_compounds_with(),
    {
        match self {
            VariantRegistration::Compound { compounds_with, .. } => compounds_with,
            _ => Compounds::empty(),
        }
    }
}

/// The pseudo-class variants, in Tailwind's order; each sorts at ten plus its position.
pub open spec fn core_variants() -> Seq<Seq<char>> {
    seq![
        "first-letter"@,
        "first-line"@,
        "marker"@,
        "selection"@,
        "file"@,
        "placeholder"@,
        "backdrop"@,
        "details-content"@,
        "before"@,
        "after"@,
        "first"@,
        "last"@,
        "only"@,
        "odd"@,
        "even"@,
        "first-of-type"@,
        "last-of-type"@,
        "only-of-type"@,
        "visited"@,
        "target"@,
        "open"@,
        "default"@,
        "checked"@,
        "indeterminate"@,
        "placeholder-shown"@,
        "autofill"@,
        "optional"@,
        "required"@,
        "valid"@,
        "invalid"@,
        "user-valid"@,
        "user-invalid"@,
        "in-range"@,
        "out-of-range"@,
        "read-only"@,
        "empty"@,
        "focus-within"@,
        "hover"@,
        "focus"@,
        "focus-visible"@,
        "active"@,
        "enabled"@,
        "disabled"@,
        "inert"@
    ]
}

/// The sort order of a built-in variant root that has an order of its own.
pub open spec fn explicit_variant_order(root: Seq<char>) -> Option<u32> {
    if root == "*"@ {
        Some(0)
    } else if root == "**"@ {
        Some(1)
    } else if root == "not"@ {
        Some(2)
    } else if root == "group"@ {
        Some(3)
    } else if root == "peer"@ {
        Some(4)
    } else if root == "in"@ {
        Some(80)
    } else if root == "has"@ {
        Some(81)
    } else if root == "aria"@ {
        Some(82)
    } else if root == "data"@ {
        Some(83)
    } else if root == "nth"@ {
        Some(84)
    } else if root == "nth-last"@ {
        Some(85)
    } else if root == "nth-of-type"@ {
        Some(86)
    } else if root == "nth-last-of-type"@ {
        Some(87)
    } else if root == "supports"@ {
        Some(88)
    } else if root == "motion-safe"@ {
        Some(90)
    } else if root == "motion-reduce"@ {
        Some(91)
    } else if root == "contrast-more"@ {
        Some(92)
    } else if root == "contrast-less"@ {
        Some(93)
    } else if root == "max"@ {
        Some(MAX_VARIANT_ORDER)
    } else if root == "min"@ {
        Some(THEME_VARIANT_ORDER)
    } else if root == "@max"@ {
        Some(300)
    } else if root == "@"@ {
        Some(320)
    } else if root == "@min"@ {
        Some(320)
    } else if root == "portrait"@ {
        Some(400)
    } else if root == "landscape"@ {
        Some(401)
    } else if root == "ltr"@ {
        Some(402)
    } else if root == "rtl"@ {
        Some(403)
    } else if root == "dark"@ {
        Some(404)
    } else if root == "starting"@ {
        Some(405)
    } else if root == "print"@ {
        Some(406)
    } else if root == "forced-colors"@ {
        Some(407)
    } else if root == "inverted-colors"@ {
        Some(408)
    } else if root == "pointer-none"@ {
        Some(409)
    } else if root == "pointer-coarse"@ {
        Some(410)
    } else if root == "pointer-fine"@ {
        Some(411)
    } else if root == "any-pointer-none"@ {
        Some(412)
    } else if root == "any-pointer-coarse"@ {
        Some(413)
    } else if root == "any-pointer-fine"@ {
        Some(414)
    } else if root == "noscript"@ {
        Some(415)
    } else {
        None
    }
}

/// The sort order of a built-in variant root. Roots outside the table sort just before
/// arbitrary variants.
pub open spec fn spec_builtin_variant_order(root: Seq<char>) -> u32 {
    match explicit_variant_order(root) {
        Some(order) => order,
        None => match first_position(core_variants(), root, 0) {
            Some(k) => (10 + k) as u32,
            None => (ARBITRARY_VARIANT_ORDER - 1) as u32,
        },
    }
}

/// The first position, at or after `k`, where `x` occurs in `table`.
pub open spec fn first_position(table: Seq<Seq<char>>, x: Seq<char>, k: int) -> Option<int>
    decreases table.len() - k,
{
    if k < 0 || k >= table.len() {
        None
    } else if table[k] == x {
        Some(k)
    } else {
        first_position(table, x, k + 1)
    }
}

fn core_variant_table() -> (t: Vec<&'static str>)
    ensures
        t@.len() == core_variants().len(),
        forall|k: int| 0 <= k < t@.len() ==> (#[trigger] t@[k])@ == core_variants()[k],
{
    let t = vec![
        "first-letter",
        "first-line",
        "marker",
        "selection",
        "file",
        "placeholder",
        "backdrop",
        "details-content",
        "before",
        "after",
        "first",
        "last",
        "only",
        "odd",
        "even",
        "first-of-type",
        "last-of-type",
        "only-of-type",
        "visited",
        "target",
        "open",
        "default",
        "checked",
        "indeterminate",
        "placeholder-shown",
        "autofill",
        "optional",
        "required",
        "valid",
        "invalid",
        "user-valid",
        "user-invalid",
        "in-range",
        "out-of-range",
        "read-only",
        "empty",
        "focus-within",
        "hover",
        "focus",
        "focus-visible",
        "active",
        "enabled",
        "disabled",
        "inert"
    ];
    t
}

/// The sort order of a built-in variant root.
fn explicit_variant_order_exec(root: &str) -> (r: Option<u32>)
    ensures
        r == explicit_variant_order(root@),
{
    if str_eq(root, "*") {
        Some(0)
    } else if str_eq(root, "**") {
        Some(1)
    } else if str_eq(root, "not") {
        Some(2)
    } else if str_eq(root, "group") {
        Some(3)
    } else if str_eq(root, "peer") {
        Some(4)
    } else if str_eq(root, "in") {
        Some(80)
    } else if str_eq(root, "has") {
        Some(81)
    } else if str_eq(root, "aria") {
        Some(82)
    } else if str_eq(root, "data") {
        Some(83)
    } else if str_eq(root, "nth") {
        Some(84)
    } else if str_eq(root, "nth-last") {
        Some(85)
    } else if str_eq(root, "nth-of-type") {
        Some(86)
    } else if str_eq(root, "nth-last-of-type") {
        Some(87)
    } else if str_eq(root, "supports") {
        Some(88)
    } else if str_eq(root, "motion-safe") {
        Some(90)
    } else if str_eq(root, "motion-reduce") {
        Some(91)
    } else if str_eq(root, "contrast-more") {
        Some(92)
    } else if str_eq(root, "contrast-less") {
        Some(93)
    } else if str_eq(root, "max") {
        Some(MAX_VARIANT_ORDER)
    } else if str_eq(root, "min") {
        Some(THEME_VARIANT_ORDER)
    } else if str_eq(root, "@max") {
        Some(300)
    } else if str_eq(root, "@") {
        Some(320)
    } else if str_eq(root, "@min") {
        Some(320)
    } else if str_eq(root, "portrait") {
        Some(400)
    } else if str_eq(root, "landscape") {
        Some(401)
    } else if str_eq(root, "ltr") {
        Some(402)
    } else if str_eq(root, "rtl") {
        Some(403)
    } else if str_eq(root, "dark") {
        Some(404)
    } else if str_eq(root, "starting") {
        Some(405)
    } else if str_eq(root, "print") {
        Some(406)
    } else if str_eq(root, "forced-colors") {
        Some(407)
    } else if str_eq(root, "inverted-colors") {
        Some(408)
    } else if str_eq(root, "pointer-none") {
        Some(409)
    } else if str_eq(root, "pointer-coarse") {
        Some(410)
    } else if str_eq(root, "pointer-fine") {
        Some(411)
    } else if str_eq(root, "any-pointer-none") {
        Some(412)
    } else if str_eq(root, "any-pointer-coarse") {
        Some(413)
    } else if str_eq(root, "any-pointer-fine") {
        Some(414)
    } else if str_eq(root, "noscript") {
        Some(415)
    } else {
        None
    }
}

/// The sort order of a built-in variant root.
pub fn builtin_variant_order(root: &str) -> (r: u32)
    ensures
        r == spec_builtin_variant_order(root@),
{
    if let Some(order) = explicit_variant_order_exec(root) {
        return order;
    }
    {
        let table = core_variant_table();
        let mut k: usize = 0;
        while k < table.len()
            invariant
                table@.len() == core_variants().len(),
                forall|j: int| 0 <= j < table@.len() ==> (#[trigger] table@[j])@ == core_variants()[j],
                k <= table@.len(),
                explicit_variant_order(root@) is None,
                first_position(core_variants(), root@, 0) == first_position(core_variants(), root@, k as int),
            decreases table.len() - k,
        {
            if str_eq(root, table[k]) {
                return 10 + k as u32;
            }
            k = k + 1;
        }
        ARBITRARY_VARIANT_ORDER - 1
    }
}

/// The built-in variants that wrap a rule in an at-rule and so sort as global variants.
pub open spec fn spec_builtin_variant_is_global(root: Seq<char>) -> bool {
    root == "motion-safe"@
        || root == "motion-reduce"@
        || root == "contrast-more"@
        || root == "contrast-less"@
        || root == "portrait"@
        || root == "landscape"@
        || root == "dark"@
        || root == "starting"@
        || root == "print"@
        || root == "forced-colors"@
        || root == "inverted-colors"@
        || root == "pointer-none"@
        || root == "pointer-coarse"@
        || root == "pointer-fine"@
        || root == "any-pointer-none"@
        || root == "any-pointer-coarse"@
        || root == "any-pointer-fine"@
        || root == "noscript"@
        || root == "min"@
        || root == "max"@
        || root == "@min"@
        || root == "@max"@
}

pub fn builtin_variant_is_global(root: &str) -> (r: bool)
    ensures
        r == spec_builtin_variant_is_global(root@),
{
    str_eq(root, "motion-safe")
        || str_eq(root, "motion-reduce")
        || str_eq(root, "contrast-more")
        || str_eq(root, "contrast-less")
        || str_eq(root, "portrait")
        || str_eq(root, "landscape")
        || str_eq(root, "dark")
        || str_eq(root, "starting")
        || str_eq(root, "print")
        || str_eq(root, "forced-colors")
        || str_eq(root, "inverted-colors")
        || str_eq(root, "pointer-none")
        || str_eq(root, "pointer-coarse")
        || str_eq(root, "pointer-fine")
        || str_eq(root, "any-pointer-none")
        || str_eq(root, "any-pointer-coarse")
        || str_eq(root, "any-pointer-fine")
        || str_eq(root, "noscript")
        || str_eq(root, "min")
        || str_eq(root, "max")
        || str_eq(root, "@min")
        || str_eq(root, "@max")
}

} // verus!
