//! What loading a design system can fail with, and how one stylesheet changes a design system.

use vstd::prelude::*;
use std::path::PathBuf;
use crate::collections::{NameSet, TextMap, PropertyMap, name_set_contents, text_map_contents, variant_map_contents, property_map_contents};
use crate::config::{
    first_word, first_word_exec, theme_apply_blocks, apply_theme_block, utility_fold, utility_step,
    utility_properties_exec, functional_root, UtilityState, component_fold, insert_all, VariantState,
    variant_step, variant_block_fold, variant_statement_fold, statement_rest, spec_next_order,
    lemma_max_order_unique, prefix_after,
};
use crate::css::{
    at_rule_blocks, at_rule_statements, blocks_from, statements_from, block_views, contains_at_rule,
    css_class_selectors, class_selectors_from, custom_variant_is_global, spec_custom_variant_is_global,
    directive_from, find_function_argument, function_argument_from,
};
use crate::design_system::{DesignSystem, fresh_design, is_max_order};
use crate::text::{chars_of, is_ascii_lowercase, char_is_ascii_lowercase, is_prefix, str_eq, strip_suffix, strip_prefix, views};
use crate::variants::{Compounds, VariantRegistration, THEME_VARIANT_ORDER};

verus! {

/// `std::io::Error`, carried in a load error.
#[verifier::external_type_specification]
#[verifier::external_body]
pub struct ExIoError(std::io::Error);

/// Why a design system could not be loaded.
pub enum LoadError {
    /// A stylesheet could not be read.
    Io { path: PathBuf, source: std::io::Error },
    /// No `node_modules/tailwindcss` was found from the working directory.
    TailwindPackageNotFound { cwd: PathBuf },
    /// A CSS `@import` could not be resolved.
    ImportNotFound { request: String, base: PathBuf },
    /// A stylesheet uses `@plugin` or `@config`, which need JavaScript.
    JavaScriptModuleUnsupported { directive: &'static str, path: PathBuf },
}

/// `PathBuf::clone`: a copy of the path.
#[verifier::external_body]
pub(crate) fn copy_path(path: &PathBuf) -> (r: PathBuf)
    ensures
        r == *path,
{
    path.clone()
}

/// The utility state of a design system: its static utilities, functional utilities and the
/// properties of its stylesheet utilities.
pub open spec fn utility_state(d: DesignSystem) -> UtilityState {
    (name_set_contents(d.static_utilities), name_set_contents(d.functional_utilities), property_map_contents(d.custom_utilities))
}

/// The variant state of a design system: its registrations, global and local variants.
pub open spec fn variant_state(d: DesignSystem) -> VariantState {
    (variant_map_contents(d.variants), name_set_contents(d.global_variants), name_set_contents(d.local_variants))
}

/// The characters of an optional text.
pub open spec fn text_option(o: Option<String>) -> Option<Seq<char>> {
    match o {
        Some(t) => Some(t@),
        None => None,
    }
}

/// The directive among `@plugin` and `@config`, in that order, that a stylesheet uses.
pub open spec fn javascript_directive(content: Seq<char>) -> Option<Seq<char>> {
    if directive_from(content, "@plugin"@, 0, true) is Some {
        Some("@plugin"@)
    } else if directive_from(content, "@config"@, 0, true) is Some {
        Some("@config"@)
    } else {
        None
    }
}

/// The design system `d` after a stylesheet with the text `content` that needs no JavaScript.
pub open spec fn configured(old: DesignSystem, d: DesignSystem, content: Seq<char>) -> bool {
    &&& text_option(d.prefix) == prefix_after(text_option(old.prefix), content)
    &&& text_map_contents(d.theme) == theme_apply_blocks(text_map_contents(old.theme), blocks_from(content, "@theme"@, 0))
    &&& utility_state(d) == utility_fold(utility_state(old), blocks_from(content, "@utility"@, 0))
    &&& name_set_contents(d.component_classes) == component_fold(name_set_contents(old.component_classes), blocks_from(content, "@layer"@, 0))
    &&& variant_state(d) == variant_statement_fold(
        variant_block_fold(variant_state(old), blocks_from(content, "@custom-variant"@, 0)),
        statements_from(content, "@custom-variant"@, 0),
    )
    &&& name_set_contents(d.negative_utilities) == name_set_contents(old.negative_utilities)
    &&& d.dependencies == old.dependencies
    &&& d.generation == old.generation
}

/// Registers the custom variant `name`, after every registered variant, as global (it wraps
/// rules in an at-rule) or local.
fn register_custom_variant(design: &mut DesignSystem, name: &str, global: bool)
    requires
        name@.len() > 0,
    ensures
        variant_state(*final(design)) == variant_step(variant_state(*old(design)), name@, global),
        final(design).prefix == old(design).prefix,
        final(design).theme == old(design).theme,
        final(design).static_utilities == old(design).static_utilities,
        final(design).functional_utilities == old(design).functional_utilities,
        final(design).negative_utilities == old(design).negative_utilities,
        final(design).custom_utilities == old(design).custom_utilities,
        final(design).component_classes == old(design).component_classes,
        final(design).dependencies == old(design).dependencies,
        final(design).generation == old(design).generation,
{
    let order = design.next_variant_order();
    proof {
        let m = choose|m: u32| #[trigger] is_max_order(variant_map_contents(design.variants), m)
            && order == if m == u32::MAX { u32::MAX } else { (m + 1) as u32 };
        let x = choose|x: u32| is_max_order(variant_map_contents(design.variants), x);
        lemma_max_order_unique(variant_map_contents(design.variants), m, x);
        assert(order == spec_next_order(variant_map_contents(design.variants)));
    }
    let compounds = if global { Compounds::at_rules() } else { Compounds::style_rules() };
    design.variants.insert(name, VariantRegistration::Static { order, compounds });
    if global {
        design.global_variants.insert(name);
        design.local_variants.remove(name);
    } else {
        design.local_variants.insert(name);
        design.global_variants.remove(name);
    }
}

/// Applies the `@theme` blocks of a stylesheet to a theme, in order.
fn apply_theme_blocks(theme: &mut TextMap, content: &str)
    ensures
        text_map_contents(*final(theme)) == theme_apply_blocks(text_map_contents(*old(theme)), blocks_from(content@, "@theme"@, 0)),
{
    let blocks = at_rule_blocks(content, "theme");
    let ghost all = block_views(blocks@);
    let ghost start = text_map_contents(*theme);
    proof {
        reveal_strlit("theme");
        reveal_strlit("@theme");
        assert(seq!['@'] + "theme"@ =~= "@theme"@);
    }
    let mut i: usize = 0;
    while i < blocks.len()
        invariant
            all == block_views(blocks@),
            all == blocks_from(content@, "@theme"@, 0),
            i <= blocks@.len(),
            text_map_contents(*theme) == theme_apply_blocks(start, all.take(i as int)),
        decreases blocks.len() - i,
    {
        assert(all[i as int] == (blocks@[i as int].prelude@, blocks@[i as int].body@));
        assert(all.take(i + 1).drop_last() =~= all.take(i as int));
        apply_theme_block(theme, blocks[i].body);
        i = i + 1;
    }
    assert(all.take(all.len() as int) =~= all);
}

/// Applies the `@utility` blocks of a stylesheet, in order.
fn apply_utility_blocks(static_utilities: &mut NameSet, functional_utilities: &mut NameSet, custom_utilities: &mut PropertyMap, content: &str)
    ensures
        (name_set_contents(*final(static_utilities)), name_set_contents(*final(functional_utilities)), property_map_contents(*final(custom_utilities)))
            == utility_fold(
                (name_set_contents(*old(static_utilities)), name_set_contents(*old(functional_utilities)), property_map_contents(*old(custom_utilities))),
                blocks_from(content@, "@utility"@, 0),
            ),
{
    let blocks = at_rule_blocks(content, "utility");
    let ghost all = block_views(blocks@);
    let ghost start = (name_set_contents(*static_utilities), name_set_contents(*functional_utilities), property_map_contents(*custom_utilities));
    proof {
        reveal_strlit("utility");
        reveal_strlit("@utility");
        assert(seq!['@'] + "utility"@ =~= "@utility"@);
    }
    let mut i: usize = 0;
    while i < blocks.len()
        invariant
            all == block_views(blocks@),
            all == blocks_from(content@, "@utility"@, 0),
            i <= blocks@.len(),
            (name_set_contents(*static_utilities), name_set_contents(*functional_utilities), property_map_contents(*custom_utilities))
                == utility_fold(start, all.take(i as int)),
        decreases blocks.len() - i,
    {
        assert(all[i as int] == (blocks@[i as int].prelude@, blocks@[i as int].body@));
        assert(all.take(i + 1).drop_last() =~= all.take(i as int));
        let name = first_word_exec(blocks[i].prelude);
        let properties = utility_properties_exec(name, blocks[i].body);
        proof {
            reveal_strlit("-*");
        }
        match strip_suffix(name, "-*") {
            Some(root) => {
                proof {
                    assert("-*"@ =~= seq!['-', '*']);
                    assert(name@.subrange(name@.len() - 2, name@.len() as int) =~= seq!['-', '*']);
                    assert(root@ =~= name@.subrange(0, name@.len() - 2));
                }
                functional_utilities.insert(root);
                custom_utilities.insert(root, &properties);
            },
            None => {
                proof {
                    assert("-*"@ =~= seq!['-', '*']);
                    if name@.len() >= 2 && name@[name@.len() - 2] == '-' && name@[name@.len() - 1] == '*' {
                        assert(name@.subrange(name@.len() - 2, name@.len() as int) =~= seq!['-', '*']);
                    }
                }
                if name.unicode_len() > 0 {
                    static_utilities.insert(name);
                    custom_utilities.insert(name, &properties);
                }
            },
        }
        i = i + 1;
    }
    assert(all.take(all.len() as int) =~= all);
}

/// Adds the classes that the `@layer components` blocks of a stylesheet declare.
fn apply_component_layers(component_classes: &mut NameSet, content: &str)
    ensures
        name_set_contents(*final(component_classes)) == component_fold(name_set_contents(*old(component_classes)), blocks_from(content@, "@layer"@, 0)),
{
    let blocks = at_rule_blocks(content, "layer");
    let ghost all = block_views(blocks@);
    let ghost start = name_set_contents(*component_classes);
    proof {
        reveal_strlit("layer");
        reveal_strlit("@layer");
        assert(seq!['@'] + "layer"@ =~= "@layer"@);
    }
    let mut i: usize = 0;
    while i < blocks.len()
        invariant
            all == block_views(blocks@),
            all == blocks_from(content@, "@layer"@, 0),
            i <= blocks@.len(),
            name_set_contents(*component_classes) == component_fold(start, all.take(i as int)),
        decreases blocks.len() - i,
    {
        assert(all[i as int] == (blocks@[i as int].prelude@, blocks@[i as int].body@));
        assert(all.take(i + 1).drop_last() =~= all.take(i as int));
        let ghost before = name_set_contents(*component_classes);
        if str_eq(first_word_exec(blocks[i].prelude), "components") {
            let classes = css_class_selectors(blocks[i].body);
            let ghost names = views(classes@);
            let mut k: usize = 0;
            while k < classes.len()
                invariant
                    names == views(classes@),
                    k <= classes@.len(),
                    name_set_contents(*component_classes) == insert_all(before, names.take(k as int)),
                decreases classes.len() - k,
            {
                assert(names.take(k + 1).drop_last() =~= names.take(k as int));
                component_classes.insert(classes[k]);
                k = k + 1;
            }
            assert(names.take(names.len() as int) =~= names);
        }
        i = i + 1;
    }
    assert(all.take(all.len() as int) =~= all);
}

/// Registers the custom variants of a stylesheet: first those with a block, then the
/// one-line statements, each in order.
fn apply_custom_variants(design: &mut DesignSystem, content: &str)
    ensures
        variant_state(*final(design)) == variant_statement_fold(
            variant_block_fold(variant_state(*old(design)), blocks_from(content@, "@custom-variant"@, 0)),
            statements_from(content@, "@custom-variant"@, 0),
        ),
        final(design).prefix == old(design).prefix,
        final(design).theme == old(design).theme,
        final(design).static_utilities == old(design).static_utilities,
        final(design).functional_utilities == old(design).functional_utilities,
        final(design).negative_utilities == old(design).negative_utilities,
        final(design).custom_utilities == old(design).custom_utilities,
        final(design).component_classes == old(design).component_classes,
        final(design).dependencies == old(design).dependencies,
        final(design).generation == old(design).generation,
{
    proof {
        reveal_strlit("custom-variant");
        reveal_strlit("@custom-variant");
        assert(seq!['@'] + "custom-variant"@ =~= "@custom-variant"@);
    }
    let ghost start = *design;
    let blocks = at_rule_blocks(content, "custom-variant");
    let ghost all = block_views(blocks@);
    let mut i: usize = 0;
    while i < blocks.len()
        invariant
            all == block_views(blocks@),
            all == blocks_from(content@, "@custom-variant"@, 0),
            i <= blocks@.len(),
            variant_state(*design) == variant_block_fold(variant_state(start), all.take(i as int)),
            design.prefix == start.prefix,
            design.theme == start.theme,
            design.static_utilities == start.static_utilities,
            design.functional_utilities == start.functional_utilities,
            design.negative_utilities == start.negative_utilities,
            design.custom_utilities == start.custom_utilities,
            design.component_classes == start.component_classes,
            design.dependencies == start.dependencies,
            design.generation == start.generation,
        decreases blocks.len() - i,
    {
        assert(all[i as int] == (blocks@[i as int].prelude@, blocks@[i as int].body@));
        assert(all.take(i + 1).drop_last() =~= all.take(i as int));
        let name = first_word_exec(blocks[i].prelude);
        let global = custom_variant_is_global(blocks[i].body);
        if name.unicode_len() > 0 {
            register_custom_variant(design, name, global);
        }
        i = i + 1;
    }
    assert(all.take(all.len() as int) =~= all);
    let ghost middle = variant_state(*design);
    let statements = at_rule_statements(content, "custom-variant");
    let ghost preludes = views(statements@);
    let mut k: usize = 0;
    while k < statements.len()
        invariant
            preludes == views(statements@),
            preludes == statements_from(content@, "@custom-variant"@, 0),
            k <= statements@.len(),
            variant_state(*design) == variant_statement_fold(middle, preludes.take(k as int)),
            design.prefix == start.prefix,
            design.theme == start.theme,
            design.static_utilities == start.static_utilities,
            design.functional_utilities == start.functional_utilities,
            design.negative_utilities == start.negative_utilities,
            design.custom_utilities == start.custom_utilities,
            design.component_classes == start.component_classes,
            design.dependencies == start.dependencies,
            design.generation == start.generation,
        decreases statements.len() - k,
    {
        assert(preludes.take(k + 1).drop_last() =~= preludes.take(k as int));
        let prelude = statements[k];
        let name = first_word_exec(prelude);
        let rest = match strip_prefix(prelude, name) {
            Some(rest) => {
                assert(rest@ =~= prelude@.subrange(name@.len() as int, prelude@.len() as int));
                rest
            },
            None => "",
        };
        proof {
            reveal_strlit("");
            assert(rest@ == statement_rest(prelude@));
        }
        let global = custom_variant_is_global(rest);
        if name.unicode_len() > 0 {
            register_custom_variant(design, name, global);
        }
        k = k + 1;
    }
    assert(preludes.take(preludes.len() as int) =~= preludes);
}

/// The prefix a stylesheet sets, if any: the argument of `prefix(...)` when it is a nonempty run
/// of lowercase ASCII letters.
fn stylesheet_prefix(content: &str) -> (r: Option<&str>)
    ensures
        match r {
            Some(p) => prefix_after(None, content@) == Some(p@),
            None => prefix_after(None, content@) is None,
        },
{
    proof {
        reveal_strlit("prefix");
        assert("prefix"@ + seq!['('] =~= "prefix"@ + seq!['(']);
    }
    match find_function_argument(content, "prefix") {
        Some(prefix) => {
            let chars = chars_of(prefix);
            let mut all_lower = true;
            let mut k: usize = 0;
            while k < chars.len()
                invariant
                    chars@ == prefix@,
                    k <= chars@.len(),
                    all_lower == forall|j: int| 0 <= j < k ==> is_ascii_lowercase(#[trigger] prefix@[j]),
                decreases chars.len() - k,
            {
                if !char_is_ascii_lowercase(chars[k]) {
                    all_lower = false;
                }
                k = k + 1;
            }
            if chars.len() > 0 && all_lower {
                Some(prefix)
            } else {
                None
            }
        },
        None => None,
    }
}

/// Applies one stylesheet to a design system: its prefix, `@theme`, `@utility`,
/// `@layer components` and `@custom-variant` rules. A stylesheet that uses `@plugin` or
/// `@config` is refused, naming the first of the two it uses, and changes nothing.
pub fn apply_css_configuration(design: &mut DesignSystem, path: &PathBuf, content: &str) -> (r: Result<(), LoadError>)
    ensures
        match javascript_directive(content@) {
            Some(directive) => {
                &&& r matches Err(LoadError::JavaScriptModuleUnsupported { directive: d, path: p })
                &&& d@ == directive
                &&& p == *path
                &&& *final(design) == *old(design)
            },
            None => r is Ok && configured(*old(design), *final(design), content@),
        },
{
    proof {
        reveal_strlit("@plugin");
        reveal_strlit("@config");
    }
    if contains_at_rule(content, "@plugin") {
        return Err(LoadError::JavaScriptModuleUnsupported { directive: "@plugin", path: copy_path(path) });
    }
    if contains_at_rule(content, "@config") {
        return Err(LoadError::JavaScriptModuleUnsupported { directive: "@config", path: copy_path(path) });
    }
    let ghost start = *design;
    match stylesheet_prefix(content) {
        Some(prefix) => {
            design.prefix = Some(prefix.to_owned());
        },
        None => {},
    }
    assert(text_option(design.prefix) == prefix_after(text_option(start.prefix), content@));
    apply_theme_blocks(&mut design.theme, content);
    apply_utility_blocks(&mut design.static_utilities, &mut design.functional_utilities, &mut design.custom_utilities, content);
    apply_component_layers(&mut design.component_classes, content);
    apply_custom_variants(design, content);
    Ok(())
}

/// The registrations after the breakpoint variants `names`, in their order: the variant at
/// index `i` is registered at the theme order plus `i`, as an at-rule, unless its name is
/// registered already.
pub open spec fn theme_variant_fold(m: Map<Seq<char>, VariantRegistration>, names: Seq<Seq<char>>) -> Map<Seq<char>, VariantRegistration>
    decreases names.len(),
{
    if names.len() == 0 {
        m
    } else {
        let rest = theme_variant_fold(m, names.drop_last());
        let name = names.last();
        if rest.contains_key(name) {
            rest
        } else {
            rest.insert(name, VariantRegistration::Static {
                order: (THEME_VARIANT_ORDER + names.len() - 1) as u32,
                compounds: Compounds { bits: 2 },
            })
        }
    }
}

/// The theme key of the breakpoint `name`.
pub open spec fn breakpoint_key(name: Seq<char>) -> Seq<char> {
    "--breakpoint-"@ + name
}

/// Whether the theme sets the breakpoint `name` to `value`.
pub open spec fn is_breakpoint_entry(theme: Map<Seq<char>, Seq<char>>, name: Seq<char>, value: Seq<char>) -> bool {
    theme.contains_key(breakpoint_key(name)) && theme[breakpoint_key(name)] == value
}

impl DesignSystem {
    /// The breakpoints of the theme: each `--breakpoint-<name>` entry as `(name, value)`, once
    /// each, in the theme's iteration order.
    pub fn breakpoints(&self) -> (r: Vec<(String, String)>)
        ensures
            forall|k: int| 0 <= k < r@.len() ==> is_breakpoint_entry(text_map_contents(self.theme), (#[trigger] r@[k]).0@, r@[k].1@),
            forall|name: Seq<char>| text_map_contents(self.theme).contains_key(breakpoint_key(name))
                ==> exists|k: int| 0 <= k < r@.len() && (#[trigger] r@[k]).0@ == name,
            forall|k: int, m: int| 0 <= k < m < r@.len() ==> (#[trigger] r@[k]).0@ != (#[trigger] r@[m]).0@,
    {
        let entries = self.theme.entries();
        let ghost theme = text_map_contents(self.theme);
        let mut found: Vec<(String, String)> = Vec::new();
        let mut i: usize = 0;
        while i < entries.len()
            invariant
                theme == text_map_contents(self.theme),
                i <= entries@.len(),
                forall|k: int| 0 <= k < entries@.len() ==> theme.contains_key((#[trigger] entries@[k]).0@)
                    && theme[entries@[k].0@] == entries@[k].1@,
                forall|name: Seq<char>| theme.contains_key(name) ==> exists|k: int| 0 <= k < entries@.len() && (#[trigger] entries@[k]).0@ == name,
                forall|k: int, m: int| 0 <= k < m < entries@.len() ==> (#[trigger] entries@[k]).0@ != (#[trigger] entries@[m]).0@,
                forall|k: int| 0 <= k < found@.len() ==> is_breakpoint_entry(theme, (#[trigger] found@[k]).0@, found@[k].1@),
                forall|k: int| 0 <= k < found@.len() ==> exists|j: int| 0 <= j < i && (#[trigger] entries@[j]).0@ == breakpoint_key((#[trigger] found@[k]).0@),
                forall|j: int, name: Seq<char>| #![trigger entries@[j], breakpoint_key(name)] 0 <= j < i && entries@[j].0@ == breakpoint_key(name)
                    ==> exists|k: int| 0 <= k < found@.len() && (#[trigger] found@[k]).0@ == name,
                forall|k: int, m: int| 0 <= k < m < found@.len() ==> (#[trigger] found@[k]).0@ != (#[trigger] found@[m]).0@,
            decreases entries.len() - i,
        {
            proof {
                reveal_strlit("--breakpoint-");
            }
            match strip_prefix(entries[i].0.as_str(), "--breakpoint-") {
                Some(name) => {
                    let ghost before = found@;
                    proof {
                        assert forall|k: int| 0 <= k < before.len() implies (#[trigger] before[k]).0@ != name@ by {
                            let j = choose|j: int| 0 <= j < i && (#[trigger] entries@[j]).0@ == breakpoint_key(before[k].0@);
                            if before[k].0@ == name@ {
                                assert(entries@[j].0@ == entries@[i as int].0@);
                            }
                        }
                    }
                    found.push((name.to_owned(), entries[i].1.clone()));
                    proof {
                        assert(found@[before.len() as int].0@ == name@);
                        assert forall|j: int, nm: Seq<char>| #![trigger entries@[j], breakpoint_key(nm)] 0 <= j < i + 1 && entries@[j].0@ == breakpoint_key(nm)
                            implies exists|k: int| 0 <= k < found@.len() && (#[trigger] found@[k]).0@ == nm by {
                            if j == i {
                                let key = entries@[j].0@;
                                let len = "--breakpoint-"@.len() as int;
                                assert(key.subrange(len, key.len() as int) =~= nm);
                                assert(key.subrange(len, key.len() as int) =~= name@);
                                assert(found@[before.len() as int].0@ == nm);
                            } else {
                                let k = choose|k: int| 0 <= k < before.len() && (#[trigger] before[k]).0@ == nm;
                                assert(found@[k] == before[k]);
                            }
                        }
                        assert forall|k: int| 0 <= k < found@.len() implies exists|j: int| 0 <= j < i + 1 && (#[trigger] entries@[j]).0@ == breakpoint_key((#[trigger] found@[k]).0@) by {
                            if k == before.len() {
                                assert(entries@[i as int].0@ == breakpoint_key(found@[k].0@));
                            } else {
                                assert(found@[k] == before[k]);
                                let j = choose|j: int| 0 <= j < i && (#[trigger] entries@[j]).0@ == breakpoint_key(before[k].0@);
                            }
                        }
                    }
                },
                None => {
                    proof {
                        assert forall|j: int, nm: Seq<char>| #![trigger entries@[j], breakpoint_key(nm)] 0 <= j < i + 1 && entries@[j].0@ == breakpoint_key(nm)
                            implies exists|k: int| 0 <= k < found@.len() && (#[trigger] found@[k]).0@ == nm by {
                            if j == i {
                                let key = entries@[j].0@;
                                assert(key.subrange(0, "--breakpoint-"@.len() as int) =~= "--breakpoint-"@);
                                assert(is_prefix("--breakpoint-"@, key));
                            }
                        }
                    }
                },
            }
            i = i + 1;
        }
        proof {
            assert forall|name: Seq<char>| theme.contains_key(breakpoint_key(name))
                implies exists|k: int| 0 <= k < found@.len() && (#[trigger] found@[k]).0@ == name by {
                let j = choose|j: int| 0 <= j < entries@.len() && (#[trigger] entries@[j]).0@ == breakpoint_key(name);
            }
        }
        found
    }

    /// Registers the breakpoints `names`, in the order given, as global variants: the one at
    /// index `i` gets the theme order plus `i`, unless a variant of that name is registered
    /// already.
    pub fn register_theme_variants(&mut self, names: &Vec<String>)
        requires
            THEME_VARIANT_ORDER + names@.len() <= u32::MAX,
        ensures
            variant_map_contents(final(self).variants) == theme_variant_fold(variant_map_contents(old(self).variants), views_of(names@)),
            name_set_contents(final(self).global_variants) == insert_all(name_set_contents(old(self).global_variants), views_of(names@)),
            final(self).prefix == old(self).prefix,
            final(self).theme == old(self).theme,
            final(self).static_utilities == old(self).static_utilities,
            final(self).functional_utilities == old(self).functional_utilities,
            final(self).negative_utilities == old(self).negative_utilities,
            final(self).local_variants == old(self).local_variants,
            final(self).custom_utilities == old(self).custom_utilities,
            final(self).component_classes == old(self).component_classes,
            final(self).dependencies == old(self).dependencies,
            final(self).generation == old(self).generation,
    {
        let ghost all = views_of(names@);
        let ghost start = *self;
        let mut i: usize = 0;
        while i < names.len()
            invariant
                all == views_of(names@),
                THEME_VARIANT_ORDER + names@.len() <= u32::MAX,
                i <= names@.len(),
                variant_map_contents(self.variants) == theme_variant_fold(variant_map_contents(start.variants), all.take(i as int)),
                name_set_contents(self.global_variants) == insert_all(name_set_contents(start.global_variants), all.take(i as int)),
                self.prefix == start.prefix,
                self.theme == start.theme,
                self.static_utilities == start.static_utilities,
                self.functional_utilities == start.functional_utilities,
                self.negative_utilities == start.negative_utilities,
                self.local_variants == start.local_variants,
                self.custom_utilities == start.custom_utilities,
                self.component_classes == start.component_classes,
                self.dependencies == start.dependencies,
                self.generation == start.generation,
            decreases names.len() - i,
        {
            let name = names[i].as_str();
            assert(all.take(i + 1).drop_last() =~= all.take(i as int));
            assert(all.take(i + 1).last() == name@);
            let order = THEME_VARIANT_ORDER + (i as u32);
            if self.variants.get(name).is_none() {
                self.variants.insert(name, VariantRegistration::Static { order, compounds: Compounds::at_rules() });
            }
            self.global_variants.insert(name);
            i = i + 1;
        }
        assert(all.take(all.len() as int) =~= all);
    }
}

/// The characters of each text.
pub open spec fn views_of(names: Seq<String>) -> Seq<Seq<char>> {
    names.map_values(|n: String| n@)
}

/// A design system built from one stylesheet alone, as if read from `path`: the built-in
/// variants, then the stylesheet's configuration. It is refused exactly when the stylesheet uses
/// `@plugin` or `@config` (naming `@plugin` when it uses both); otherwise it has the given
/// generation and depends on no file.
pub fn configured_from_css(content: &str, generation: u64, path: &PathBuf) -> (r: Result<DesignSystem, LoadError>)
    ensures
        match javascript_directive(content@) {
            Some(directive) => r matches Err(LoadError::JavaScriptModuleUnsupported { directive: d, path: p })
                && d@ == directive && p == *path,
            None => r matches Ok(d) && d.generation == generation && d.dependencies@.len() == 0
                && exists|start: DesignSystem| fresh_design(start, generation) && #[trigger] configured(start, d, content@),
        },
{
    let mut design = DesignSystem::new(generation, Vec::new());
    let ghost start = design;
    assert(fresh_design(start, generation));
    match apply_css_configuration(&mut design, path, content) {
        Ok(()) => Ok(design),
        Err(e) => Err(e),
    }
}

} // verus!
