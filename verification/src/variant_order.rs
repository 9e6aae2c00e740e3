//! The order of variants, as the design system reports it for a set of classes: the sort order
//! of each variant's registration, with a high bit for global variants.

use vstd::prelude::*;
use crate::candidate::{Candidate, CandidateModel, Variant, VariantKind, VariantModel, VariantValueModel, candidate_model, candidate_models, spec_parse_candidate, spec_print_variant, variant_model, variant_models, VariantValue};
use crate::design_system::DesignSystem;
use crate::text::{str_eq, views};
use crate::variants::{ARBITRARY_VARIANT_ORDER, MAX_VARIANT_ORDER, THEME_VARIANT_ORDER, THEME_VARIANT_RANGE};

verus! {

/// The root of a variant, `[]` for an arbitrary one.
pub open spec fn variant_root_of(v: VariantModel) -> Seq<char> {
    match v {
        VariantModel::Arbitrary { .. } => "[]"@,
        VariantModel::Static { root } => root,
        VariantModel::Functional { root, .. } => root,
        VariantModel::Compound { root, .. } => root,
    }
}

/// The sort order of a variant: arbitrary variants after the others; `min-<breakpoint>` at the
/// breakpoint's order and `max-<breakpoint>` below the breakpoints, larger breakpoints first;
/// any other at its registration's order.
pub open spec fn spec_variant_sort_order(design: DesignSystem, v: VariantModel) -> Option<u32> {
    match v {
        VariantModel::Arbitrary { .. } => Some(ARBITRARY_VARIANT_ORDER),
        VariantModel::Functional { root, value, .. } => {
            let is_range = root == "min"@ || root == "max"@;
            match value {
                Some(VariantValueModel::Named(name)) if is_range => match design.spec_variant_registration(name) {
                    None => None,
                    Some(registration) => {
                        let breakpoint = registration.spec_order();
                        if root == "min"@ {
                            Some(breakpoint)
                        } else if breakpoint < THEME_VARIANT_ORDER {
                            None
                        } else {
                            let index = breakpoint - THEME_VARIANT_ORDER;
                            Some((MAX_VARIANT_ORDER + if index <= THEME_VARIANT_RANGE { THEME_VARIANT_RANGE - index } else { 0 }) as u32)
                        }
                    },
                },
                _ => registration_order(design, root),
            }
        },
        VariantModel::Static { root } => registration_order(design, root),
        VariantModel::Compound { root, .. } => registration_order(design, root),
    }
}

pub open spec fn registration_order(design: DesignSystem, root: Seq<char>) -> Option<u32> {
    match design.spec_variant_registration(root) {
        Some(r) => Some(r.spec_order()),
        None => None,
    }
}

/// The value the design system reports for a variant: its sort order (0 when it has none),
/// with bit 30 set for a global variant.
pub open spec fn variant_entry(design: DesignSystem, v: VariantModel) -> u32 {
    let root = variant_root_of(v);
    let order = match spec_variant_sort_order(design, v) {
        Some(o) => o,
        None => 0,
    };
    let global: u32 = if root != "[]"@ && design.spec_variant_is_global(root) { 1073741824 } else { 0 };
    global | order
}

/// `entries` with `(name, value)` added, unless `name` has an entry already.
pub open spec fn insert_absent(entries: Seq<(Seq<char>, u32)>, name: Seq<char>, value: u32) -> Seq<(Seq<char>, u32)> {
    if exists|k: int| 0 <= k < entries.len() && (#[trigger] entries[k]).0 == name { entries } else { entries.push((name, value)) }
}

pub open spec fn variants_fold(entries: Seq<(Seq<char>, u32)>, design: DesignSystem, vs: Seq<VariantModel>, n: int) -> Seq<(Seq<char>, u32)>
    decreases n,
{
    if n <= 0 {
        entries
    } else {
        let v = vs[n - 1];
        insert_absent(variants_fold(entries, design, vs, n - 1), spec_print_variant(v), variant_entry(design, v))
    }
}

pub open spec fn candidates_fold(entries: Seq<(Seq<char>, u32)>, design: DesignSystem, cs: Seq<CandidateModel>, n: int) -> Seq<(Seq<char>, u32)>
    decreases n,
{
    if n <= 0 {
        entries
    } else {
        let c = cs[n - 1];
        variants_fold(candidates_fold(entries, design, cs, n - 1), design, c.variants, c.variants.len() as int)
    }
}

/// The variant orders for the classes `classes[..n]`: every variant of every reading of each
/// class, by its printed form, the first reading of a name kept.
pub open spec fn classes_fold(design: DesignSystem, classes: Seq<Seq<char>>, n: int) -> Seq<(Seq<char>, u32)>
    decreases n,
{
    if n <= 0 {
        Seq::empty()
    } else {
        let cs = spec_parse_candidate(classes[n - 1], design);
        candidates_fold(classes_fold(design, classes, n - 1), design, cs, cs.len() as int)
    }
}

pub open spec fn entry_views(entries: Seq<(String, u32)>) -> Seq<(Seq<char>, u32)> {
    entries.map_values(|e: (String, u32)| (e.0@, e.1))
}

fn variant_root(variant: &Variant) -> (r: &str)
    ensures
        r@ == variant_root_of(variant_model(*variant)),
{
    match &variant.kind {
        VariantKind::Arbitrary { .. } => "[]",
        VariantKind::Static { root } => root.as_str(),
        VariantKind::Functional { root, .. } => root.as_str(),
        VariantKind::Compound { root, .. } => root.as_str(),
    }
}

impl DesignSystem {
    /// The sort order of a variant, if it has one.
    pub fn variant_sort_order(&self, variant: &Variant) -> (r: Option<u32>)
        ensures
            r == spec_variant_sort_order(*self, variant_model(*variant)),
    {
        match &variant.kind {
            VariantKind::Arbitrary { .. } => Some(ARBITRARY_VARIANT_ORDER),
            VariantKind::Functional { root, value, .. } => {
                let is_range = str_eq(root.as_str(), "min") || str_eq(root.as_str(), "max");
                match value {
                    Some(VariantValue::Named(name)) => {
                        if is_range {
                            match self.variant_registration(name.as_str()) {
                                None => None,
                                Some(registration) => {
                                    let breakpoint = registration.order();
                                    if str_eq(root.as_str(), "min") {
                                        Some(breakpoint)
                                    } else if breakpoint < THEME_VARIANT_ORDER {
                                        None
                                    } else {
                                        let index = breakpoint - THEME_VARIANT_ORDER;
                                        Some(MAX_VARIANT_ORDER + if index <= THEME_VARIANT_RANGE { THEME_VARIANT_RANGE - index } else { 0 })
                                    }
                                },
                            }
                        } else {
                            match self.variant_registration(root.as_str()) {
                                Some(r) => Some(r.order()),
                                None => None,
                            }
                        }
                    },
                    _ => match self.variant_registration(root.as_str()) {
                        Some(r) => Some(r.order()),
                        None => None,
                    },
                }
            },
            VariantKind::Static { root } => match self.variant_registration(root.as_str()) {
                Some(r) => Some(r.order()),
                None => None,
            },
            VariantKind::Compound { root, .. } => match self.variant_registration(root.as_str()) {
                Some(r) => Some(r.order()),
                None => None,
            },
        }
    }
}

fn has_entry(entries: &Vec<(String, u32)>, name: &str) -> (r: bool)
    ensures
        r == exists|k: int| 0 <= k < entry_views(entries@).len() && (#[trigger] entry_views(entries@)[k]).0 == name@,
{
    let ghost ev = entry_views(entries@);
    let mut k: usize = 0;
    while k < entries.len()
        invariant
            ev == entry_views(entries@),
            k <= entries@.len(),
            forall|j: int| 0 <= j < k ==> (#[trigger] ev[j]).0 != name@,
        decreases entries.len() - k,
    {
        assert(ev[k as int].0 == entries@[k as int].0@);
        if str_eq(entries[k].0.as_str(), name) {
            return true;
        }
        k = k + 1;
    }
    false
}

impl DesignSystem {
    fn variant_entry_exec(&self, variant: &Variant) -> (r: u32)
        ensures
            r == variant_entry(*self, variant_model(*variant)),
    {
        let root = variant_root(variant);
        let order = match self.variant_sort_order(variant) {
            Some(o) => o,
            None => 0,
        };
        proof {
            reveal_strlit("[]");
        }
        let global: u32 = if !str_eq(root, "[]") && self.variant_is_global(root) { 1073741824 } else { 0 };
        global | order
    }

    /// The order of every variant of the classes, by the variant printed back: its sort order,
    /// or 0, with bit 30 set when the variant is global. A variant met again keeps its first
    /// entry.
    pub fn variant_order(&self, classes: &Vec<&str>) -> (r: Vec<(String, u32)>)
        ensures
            entry_views(r@) == classes_fold(*self, views(classes@), classes@.len() as int),
    {
        let ghost names = views(classes@);
        let mut entries: Vec<(String, u32)> = Vec::new();
        let mut i: usize = 0;
        assert(entry_views(entries@) =~= Seq::<(Seq<char>, u32)>::empty());
        while i < classes.len()
            invariant
                names == views(classes@),
                i <= classes@.len(),
                entry_views(entries@) == classes_fold(*self, names, i as int),
            decreases classes.len() - i,
        {
            let candidates = self.parse_candidate(classes[i]);
            assert(names[i as int] == classes@[i as int]@);
            let ghost cs = candidate_models(candidates@);
            let ghost start = entry_views(entries@);
            let mut c: usize = 0;
            while c < candidates.len()
                invariant
                    cs == candidate_models(candidates@),
                    c <= candidates@.len(),
                    entry_views(entries@) == candidates_fold(start, *self, cs, c as int),
                decreases candidates.len() - c,
            {
                let candidate = &candidates[c];
                let ghost vs = variant_models(candidate.variants@);
                assert(cs[c as int] == candidate_model(*candidate));
                let ghost mid = entry_views(entries@);
                let mut v: usize = 0;
                while v < candidate.variants.len()
                    invariant
                        vs == variant_models(candidate.variants@),
                        v <= candidate.variants@.len(),
                        entry_views(entries@) == variants_fold(mid, *self, vs, v as int),
                    decreases candidate.variants.len() - v,
                {
                    let variant = &candidate.variants[v];
                    assert(vs[v as int] == variant_model(*variant));
                    let name = variant.print();
                    let value = self.variant_entry_exec(variant);
                    let ghost before = entry_views(entries@);
                    if !has_entry(&entries, name.as_str()) {
                        entries.push((name, value));
                        assert(entry_views(entries@) =~= before.push((name@, value)));
                    }
                    v = v + 1;
                }
                c = c + 1;
            }
            i = i + 1;
        }
        entries
    }
}

} // verus!
