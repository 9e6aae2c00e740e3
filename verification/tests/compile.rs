use std::cmp::Ordering;
use std::path::PathBuf;

use oxc_tailwindcss::compile::{
    compare_property_order, compare_variant_bits, conflicts_between, functional_properties,
    is_builtin_functional_value, is_builtin_named_value, is_builtin_spacing_value, is_color_or_width_root,
    is_css_length, is_positive_integer, is_spacing_root, is_strict_positive_integer, mask_edge_properties,
    properties_for_color_or_width, same_rule_context, static_properties, supports_fraction, valid_fraction,
    CompiledRule, SpacingFacts,
};
use oxc_tailwindcss::candidate::{ArbitraryValue, CandidateValue, NamedValue};
use oxc_tailwindcss::design_system::DesignSystem;
use oxc_tailwindcss::loader::apply_css_configuration;

fn design() -> DesignSystem {
    let mut design = DesignSystem::new(1, Vec::new());
    let css = "@theme { --spacing: 0.25rem; --color-red-500: red; --text-sm: 0.875rem; }
        @utility p-* { padding: --value(--spacing); }
        @utility font-thin { font-weight: 100; }";
    assert!(apply_css_configuration(&mut design, &PathBuf::from("<memory>"), css).is_ok());
    design
}

fn rules_of(design: &DesignSystem, class_name: &str, facts: SpacingFacts) -> Vec<CompiledRule> {
    let candidates = design.parse_candidate(class_name);
    let all = vec![facts; candidates.len()];
    design.compile_candidates(&candidates, &all)
}

fn names(rule: &CompiledRule) -> Vec<&str> {
    rule.properties.iter().map(|property| property.css_property_name.as_str()).collect()
}

const NONE: SpacingFacts = SpacingFacts { value: false, modifier: false };

#[test]
fn static_utilities_have_their_properties() {
    assert_eq!(static_properties("flex"), ["display"]);
    assert_eq!(static_properties("-inset-x-4"), ["inset-inline"]);
    assert_eq!(static_properties("sr-only").len(), 9);
    assert_eq!(static_properties("touch-pan-left"), ["--tw-pan-x", "touch-action"]);
    assert_eq!(static_properties("touch-pan-up"), ["--tw-pan-y", "touch-action"]);
    assert_eq!(static_properties("border-x"), ["border-inline-style", "border-inline-width"]);
    assert_eq!(static_properties("text-center"), ["text-align"]);
    assert_eq!(static_properties("divide-dashed"), ["border-style"]);
    assert_eq!(static_properties("m-auto"), ["margin"]);
    assert!(static_properties("made-up").is_empty());
}

#[test]
fn functional_roots_have_their_properties() {
    assert_eq!(functional_properties("p", None), ["padding"]);
    assert_eq!(functional_properties("top", None), ["top"]);
    let named = CandidateValue::Named(NamedValue { value: "red-500".to_owned(), fraction: None });
    assert_eq!(functional_properties("border", Some(&named)), ["border-color"]);
    let width = CandidateValue::Named(NamedValue { value: "2".to_owned(), fraction: None });
    assert_eq!(functional_properties("border", Some(&width)), ["border-width"]);
    let percent = CandidateValue::Named(NamedValue { value: "25%".to_owned(), fraction: None });
    assert_eq!(functional_properties("from", Some(&percent)), ["--tw-gradient-from-position"]);
    assert_eq!(functional_properties("from", Some(&named)), ["--tw-gradient-from", "--tw-gradient-stops"]);
    assert_eq!(
        functional_properties("backdrop-sepia", None),
        ["--tw-backdrop-sepia", "-webkit-backdrop-filter", "backdrop-filter"]
    );
    assert_eq!(functional_properties("mask-t-from", None).len(), 5);
    assert!(functional_properties("mask-made-up", None).is_empty());
    assert!(functional_properties("made-up", None).is_empty());
}

#[test]
fn color_or_width_properties_follow_the_value() {
    assert_eq!(properties_for_color_or_width("border", false), ["border-style", "border-width"]);
    assert_eq!(properties_for_color_or_width("border", true), ["border-color"]);
    assert_eq!(properties_for_color_or_width("divide-x", true), ["border-color"]);
    assert_eq!(properties_for_color_or_width("divide-y", false).len(), 5);
    assert!(properties_for_color_or_width("made-up", true).is_empty());
    assert_eq!(
        mask_edge_properties("mask-x-to"),
        [
            "mask-image",
            "mask-composite",
            "--tw-mask-linear",
            "--tw-mask-right",
            "--tw-mask-right-to-position",
            "--tw-mask-left",
            "--tw-mask-left-to-position"
        ]
    );
}

#[test]
fn value_checks() {
    assert!(is_spacing_root("scroll-mbe"));
    assert!(!is_spacing_root("z"));
    assert!(is_color_or_width_root("border-t"));
    assert!(is_color_or_width_root("ring-offset"));
    assert!(!is_color_or_width_root("bg"));
    assert!(supports_fraction("-translate-x"));
    assert!(is_builtin_spacing_value("w", "screen"));
    assert!(!is_builtin_spacing_value("m", "full"));
    assert!(is_builtin_functional_value("bg-linear", "45"));
    assert!(!is_builtin_functional_value("bg-linear", "70000"));
    assert!(is_builtin_named_value("1.5"));
    assert!(is_builtin_named_value("DEFAULT"));
    assert!(!is_builtin_named_value("made-up"));
    assert!(is_positive_integer("0"));
    assert!(!is_positive_integer("007"));
    assert!(!is_positive_integer("+7"));
    assert!(is_strict_positive_integer("12"));
    assert!(!is_strict_positive_integer("0"));
    assert!(valid_fraction("1/2"));
    assert!(!valid_fraction("1/"));
    assert!(is_css_length("1.5rem"));
    assert!(is_css_length("calc(1px+2px)"));
    assert!(!is_css_length("red"));
}

#[test]
fn candidates_compile_to_rules() {
    let design = design();
    let rules = rules_of(&design, "p-2", SpacingFacts { value: true, modifier: false });
    assert_eq!(rules.len(), 1);
    assert_eq!(names(&rules[0]), ["padding"]);
    assert_eq!(rules[0].context, "");
    let rules = rules_of(&design, "hover:font-thin", NONE);
    assert_eq!(rules[0].context, "hover");
    assert_eq!(names(&rules[0]), ["font-weight"]);
    assert!(rules_of(&design, "made-up", NONE).is_empty());
    let rules = rules_of(&design, "[color:red]/50", NONE);
    assert_eq!(names(&rules[0]), ["color"]);
    assert!(rules_of(&design, "[width:1px]/50", NONE).is_empty());
    let rules = rules_of(&design, "[display:flex]!", NONE);
    assert!(rules[0].properties[0].important);
}

#[test]
fn same_properties_in_the_same_context_conflict() {
    let design = design();
    let facts = SpacingFacts { value: true, modifier: false };
    let classes = vec!["p-2", "p-4", "hover:p-2"];
    let compiled: Vec<Vec<CompiledRule>> = classes.iter().map(|class| rules_of(&design, class, facts)).collect();
    assert!(same_rule_context(&compiled[0], &compiled[1]));
    assert!(!same_rule_context(&compiled[0], &compiled[2]));
    let conflicts = conflicts_between(&classes, &compiled);
    let pairs: Vec<(&str, &str)> = conflicts
        .iter()
        .map(|conflict| (conflict.class_name.as_str(), conflict.conflicting_class_name.as_str()))
        .collect();
    assert_eq!(pairs, [("p-2", "p-4"), ("p-4", "p-2")]);
    assert_eq!(conflicts[0].properties[0].css_property_name, "padding");
}

#[test]
fn sort_keys_compare() {
    assert_eq!(compare_variant_bits(&vec![1, 0], &vec![1]), Ordering::Equal);
    assert_eq!(compare_variant_bits(&vec![0, 1], &vec![5]), Ordering::Greater);
    assert_eq!(compare_property_order(&vec![1, 2], &vec![1]), Ordering::Less);
    assert_eq!(compare_property_order(&vec![3], &vec![2, 9]), Ordering::Greater);
    let arbitrary = ArbitraryValue { data_type: Some("color".to_owned()), value: "x".to_owned() };
    assert!(oxc_tailwindcss::compile::value_is_arbitrary_color(&arbitrary));
}
