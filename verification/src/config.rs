//! Applying a stylesheet to a design system: its prefix, theme, utilities, component classes and
//! custom variants.

use vstd::prelude::*;
use vstd::string::StrSliceExecFns;
use std::path::PathBuf;
use crate::classes::{run_end, lemma_run_end_bounds};
use crate::collections::{NameSet, TextMap, VariantMap, PropertyMap, name_set_contents, text_map_contents, variant_map_contents, property_map_contents};
use crate::css::{at_rule_blocks, at_rule_statements, blocks_from, statements_from, block_views, contains_at_rule, css_class_selectors, class_selectors_from, custom_variant_is_global, spec_custom_variant_is_global, declarations, declarations_of, directive_from, find_function_argument, function_argument_from, is_css_property_name, spec_is_css_property_name};
use crate::design_system::{DesignSystem, is_max_order};
use crate::segment::spec_segment;
use crate::text::{chars_of, char_is_ascii_whitespace, char_is_ascii_lowercase, is_ascii_lowercase, is_prefix, push_str, str_eq, starts_with, strip_suffix, strip_prefix, views};
use crate::variants::{Compounds, VariantRegistration};

verus! {

/// The first ASCII-whitespace-separated word of `s`, or nothing.
pub open spec fn first_word(s: Seq<char>) -> Seq<char> {
    let start = run_end(s, 0, true);
    s.subrange(start, run_end(s, start, false))
}

pub fn first_word_exec(s: &str) -> (r: &str)
    ensures
        r@ == first_word(s@),
{
    let chars = chars_of(s);
    let n = chars.len();
    let mut start: usize = 0;
    while start < n && char_is_ascii_whitespace(chars[start])
        invariant
            n == chars@.len(),
            chars@ == s@,
            start <= n,
            run_end(s@, 0, true) == run_end(s@, start as int, true),
        decreases n - start,
    {
        start = start + 1;
    }
    let mut end = start;
    while end < n && !char_is_ascii_whitespace(chars[end])
        invariant
            n == chars@.len(),
            chars@ == s@,
            start <= end <= n,
            run_end(s@, start as int, false) == run_end(s@, end as int, false),
        decreases n - end,
    {
        end = end + 1;
    }
    s.substring_char(start, end)
}

/// `m` without the entries whose names start with `namespace`.
pub open spec fn without_namespace(m: Map<Seq<char>, Seq<char>>, namespace: Seq<char>) -> Map<Seq<char>, Seq<char>> {
    Map::new(|k: Seq<char>| m.contains_key(k) && !is_prefix(namespace, k), |k: Seq<char>| m[k])
}

/// A theme after one declaration of an `@theme` block: a custom property sets its entry, and
/// the value `initial` resets it, a `--name-*` namespace, or with `--*` the whole theme. Other
/// declarations leave the theme as it is.
pub open spec fn theme_apply(m: Map<Seq<char>, Seq<char>>, decl: (Seq<char>, Seq<char>)) -> Map<Seq<char>, Seq<char>> {
    let (name, value) = decl;
    if !is_prefix("--"@, name) {
        m
    } else if value == "initial"@ {
        if name == "--*"@ {
            Map::empty()
        } else if name.len() > 0 && name.last() == '*' {
            without_namespace(m, name.drop_last())
        } else {
            m.remove(name)
        }
    } else {
        m.insert(name, value)
    }
}

/// A theme after the declarations `decls`, in order.
pub open spec fn theme_apply_all(m: Map<Seq<char>, Seq<char>>, decls: Seq<(Seq<char>, Seq<char>)>) -> Map<Seq<char>, Seq<char>>
    decreases decls.len(),
{
    if decls.len() == 0 {
        m
    } else {
        theme_apply(theme_apply_all(m, decls.drop_last()), decls.last())
    }
}

/// The declarations of a block body.
pub open spec fn body_declarations(body: Seq<char>) -> Seq<(Seq<char>, Seq<char>)> {
    declarations_of(spec_segment(body, ';'))
}

/// A theme after the `@theme` blocks `blocks`, in order.
pub open spec fn theme_apply_blocks(m: Map<Seq<char>, Seq<char>>, blocks: Seq<(Seq<char>, Seq<char>)>) -> Map<Seq<char>, Seq<char>>
    decreases blocks.len(),
{
    if blocks.len() == 0 {
        m
    } else {
        theme_apply_all(theme_apply_blocks(m, blocks.drop_last()), body_declarations(blocks.last().1))
    }
}

pub(crate) fn remove_namespace(theme: &mut TextMap, namespace: &str)
    ensures
        text_map_contents(*final(theme)) == without_namespace(text_map_contents(*old(theme)), namespace@),
{
    let ghost start = text_map_contents(*theme);
    let entries = theme.entries();
    let mut i: usize = 0;
    while i < entries.len()
        invariant
            i <= entries@.len(),
            forall|k: int| 0 <= k < entries@.len() ==> start.contains_key((#[trigger] entries@[k]).0@),
            forall|name: Seq<char>| start.contains_key(name) ==> exists|k: int| 0 <= k < entries@.len() && (#[trigger] entries@[k]).0@ == name,
            forall|name: Seq<char>| #[trigger] text_map_contents(*theme).contains_key(name) <==> start.contains_key(name)
                && !(is_prefix(namespace@, name) && exists|k: int| 0 <= k < i && (#[trigger] entries@[k]).0@ == name),
            forall|name: Seq<char>| #[trigger] text_map_contents(*theme).contains_key(name) ==> text_map_contents(*theme)[name] == start[name],
        decreases entries.len() - i,
    {
        let name = entries[i].0.as_str();
        if starts_with(name, namespace) {
            theme.remove(name);
        }
        i = i + 1;
    }
    assert(text_map_contents(*theme) =~= without_namespace(start, namespace@));
}

pub(crate) fn apply_theme_block(theme: &mut TextMap, body: &str)
    ensures
        text_map_contents(*final(theme)) == theme_apply_all(text_map_contents(*old(theme)), body_declarations(body@)),
{
    proof {
        reveal_strlit("--");
        reveal_strlit("*");
        reveal_strlit("--*");
        reveal_strlit("initial");
    }
    let decls = declarations(body);
    let ghost all = body_declarations(body@);
    let ghost start = text_map_contents(*theme);
    let mut i: usize = 0;
    while i < decls.len()
        invariant
            decls@.map_values(|d: crate::css::Declaration| (d.name@, d.value@)) == all,
            i <= decls@.len(),
            text_map_contents(*theme) == theme_apply_all(start, all.take(i as int)),
        decreases decls.len() - i,
    {
        let name = decls[i].name;
        let value = decls[i].value;
        proof {
            reveal_strlit("--");
            reveal_strlit("*");
            reveal_strlit("--*");
            reveal_strlit("initial");
        }
        assert(all[i as int] == (name@, value@));
        assert(all.take(i + 1).drop_last() =~= all.take(i as int));
        if starts_with(name, "--") {
            if str_eq(value, "initial") {
                if str_eq(name, "--*") {
                    theme.clear();
                    assert(text_map_contents(*theme) =~= Map::<Seq<char>, Seq<char>>::empty());
                } else {
                    match strip_suffix(name, "*") {
                        Some(namespace) => {
                            assert("*"@ =~= seq!['*']);
                            assert(name@.drop_last() =~= namespace@);
                            remove_namespace(theme, namespace);
                        },
                        None => {
                            proof {
                                assert("*"@ =~= seq!['*']);
                                if name@.len() > 0 && name@.last() == '*' {
                                    assert(name@.subrange(name@.len() - 1, name@.len() as int) =~= seq!['*']);
                                }
                            }
                            theme.remove(name);
                        },
                    }
                }
            } else {
                theme.insert(name, value);
            }
        }
        i = i + 1;
    }
    assert(all.take(all.len() as int) =~= all);
}

/// The names among `decls` that are CSS property names, in order.
pub open spec fn property_names(decls: Seq<(Seq<char>, Seq<char>)>) -> Seq<Seq<char>>
    decreases decls.len(),
{
    if decls.len() == 0 {
        Seq::empty()
    } else {
        let rest = property_names(decls.drop_last());
        if spec_is_css_property_name(decls.last().0) { rest.push(decls.last().0) } else { rest }
    }
}

/// The properties an `@utility name { body }` sets: the CSS properties it declares, or, when it
/// declares none, a custom property named after it.
pub open spec fn utility_properties(name: Seq<char>, body: Seq<char>) -> Seq<Seq<char>> {
    let properties = property_names(body_declarations(body));
    if properties.len() == 0 && name.len() > 0 { seq!["--tw-custom-"@ + name] } else { properties }
}

/// The root a functional `@utility root-*` declares.
pub open spec fn functional_root(name: Seq<char>) -> Option<Seq<char>> {
    if name.len() >= 2 && name[name.len() - 2] == '-' && name[name.len() - 1] == '*' {
        Some(name.subrange(0, name.len() - 2))
    } else {
        None
    }
}

/// The static utilities, functional utilities and utility properties of a design system.
pub type UtilityState = (Set<Seq<char>>, Set<Seq<char>>, Map<Seq<char>, Seq<Seq<char>>>);

/// The utility state after one `@utility` block.
pub open spec fn utility_step(st: UtilityState, block: (Seq<char>, Seq<char>)) -> UtilityState {
    let name = first_word(block.0);
    let properties = utility_properties(name, block.1);
    match functional_root(name) {
        Some(root) => (st.0, st.1.insert(root), st.2.insert(root, properties)),
        None => if name.len() > 0 { (st.0.insert(name), st.1, st.2.insert(name, properties)) } else { st },
    }
}

pub open spec fn utility_fold(st: UtilityState, blocks: Seq<(Seq<char>, Seq<char>)>) -> UtilityState
    decreases blocks.len(),
{
    if blocks.len() == 0 {
        st
    } else {
        utility_step(utility_fold(st, blocks.drop_last()), blocks.last())
    }
}

/// `s` with every element of `items` added.
pub open spec fn insert_all(s: Set<Seq<char>>, items: Seq<Seq<char>>) -> Set<Seq<char>>
    decreases items.len(),
{
    if items.len() == 0 {
        s
    } else {
        insert_all(s, items.drop_last()).insert(items.last())
    }
}

/// The component classes after the `@layer` blocks `blocks`: the classes that the selectors of
/// each `@layer components` block declare.
pub open spec fn component_fold(s: Set<Seq<char>>, blocks: Seq<(Seq<char>, Seq<char>)>) -> Set<Seq<char>>
    decreases blocks.len(),
{
    if blocks.len() == 0 {
        s
    } else {
        let rest = component_fold(s, blocks.drop_last());
        if first_word(blocks.last().0) == "components"@ {
            insert_all(rest, class_selectors_from(blocks.last().1, 0))
        } else {
            rest
        }
    }
}

/// The order a newly registered variant gets: one after the largest registered order.
pub open spec fn spec_next_order(m: Map<Seq<char>, VariantRegistration>) -> u32 {
    let x = choose|x: u32| is_max_order(m, x);
    if x == u32::MAX { u32::MAX } else { (x + 1) as u32 }
}

pub proof fn lemma_max_order_unique(m: Map<Seq<char>, VariantRegistration>, a: u32, b: u32)
    requires
        is_max_order(m, a),
        is_max_order(m, b),
    ensures
        a == b,
{
    if a != 0 {
        let ra = choose|root: Seq<char>| m.contains_key(root) && (#[trigger] m[root]).spec_order() == a;
        assert(m[ra].spec_order() <= b);
    }
    if b != 0 {
        let rb = choose|root: Seq<char>| m.contains_key(root) && (#[trigger] m[root]).spec_order() == b;
        assert(m[rb].spec_order() <= a);
    }
}

/// The variants, global variants and local variants of a design system.
pub type VariantState = (Map<Seq<char>, VariantRegistration>, Set<Seq<char>>, Set<Seq<char>>);

/// The variant state after a stylesheet declares the custom variant `name`.
pub open spec fn variant_step(st: VariantState, name: Seq<char>, global: bool) -> VariantState {
    if name.len() == 0 {
        st
    } else {
        let registration = VariantRegistration::Static {
            order: spec_next_order(st.0),
            compounds: Compounds { bits: if global { 2 } else { 1 } },
        };
        (
            st.0.insert(name, registration),
            if global { st.1.insert(name) } else { st.1.remove(name) },
            if global { st.2.remove(name) } else { st.2.insert(name) },
        )
    }
}

/// The variant state after the `@custom-variant name { body }` blocks.
pub open spec fn variant_block_fold(st: VariantState, blocks: Seq<(Seq<char>, Seq<char>)>) -> VariantState
    decreases blocks.len(),
{
    if blocks.len() == 0 {
        st
    } else {
        let block = blocks.last();
        variant_step(variant_block_fold(st, blocks.drop_last()), first_word(block.0), spec_custom_variant_is_global(block.1))
    }
}

/// What follows the name of a `@custom-variant name (...);` statement.
pub open spec fn statement_rest(prelude: Seq<char>) -> Seq<char> {
    let name = first_word(prelude);
    if is_prefix(name, prelude) { prelude.subrange(name.len() as int, prelude.len() as int) } else { Seq::empty() }
}

/// The variant state after the `@custom-variant name (...);` statements.
pub open spec fn variant_statement_fold(st: VariantState, statements: Seq<Seq<char>>) -> VariantState
    decreases statements.len(),
{
    if statements.len() == 0 {
        st
    } else {
        let prelude = statements.last();
        variant_step(variant_statement_fold(st, statements.drop_last()), first_word(prelude), spec_custom_variant_is_global(statement_rest(prelude)))
    }
}

/// The prefix a stylesheet sets with `prefix(...)`: a nonempty run of lowercase letters.
pub open spec fn prefix_after(old: Option<Seq<char>>, content: Seq<char>) -> Option<Seq<char>> {
    match function_argument_from(content, "prefix"@ + seq!['('], 0) {
        Some(p) => if p.len() > 0 && (forall|k: int| 0 <= k < p.len() ==> is_ascii_lowercase(#[trigger] p[k])) {
            Some(p)
        } else {
            old
        },
        None => old,
    }
}

pub(crate) fn utility_properties_exec(name: &str, body: &str) -> (r: Vec<String>)
    ensures
        r@.map_values(|p: String| p@) == utility_properties(name@, body@),
{
    let decls = declarations(body);
    let ghost all = body_declarations(body@);
    let mut properties: Vec<String> = Vec::new();
    let mut i: usize = 0;
    while i < decls.len()
        invariant
            decls@.map_values(|d: crate::css::Declaration| (d.name@, d.value@)) == all,
            i <= decls@.len(),
            properties@.map_values(|p: String| p@) == property_names(all.take(i as int)),
        decreases decls.len() - i,
    {
        let name = decls[i].name;
        assert(all[i as int].0 == name@);
        assert(all.take(i + 1).drop_last() =~= all.take(i as int));
        let ghost before = properties@.map_values(|p: String| p@);
        if is_css_property_name(name) {
            properties.push(name.to_owned());
            assert(properties@.map_values(|p: String| p@) =~= before.push(name@));
        }
        i = i + 1;
    }
    assert(all.take(all.len() as int) =~= all);
    if properties.len() == 0 && name.unicode_len() > 0 {
        let mut custom = "--tw-custom-".to_owned();
        push_str(&mut custom, name);
        let v = vec![custom];
        assert(v@.map_values(|p: String| p@) =~= seq!["--tw-custom-"@ + name@]);
        return v;
    }
    properties
}

} // verus!
