use std::path::PathBuf;

use oxc_tailwindcss::candidate::{CandidateKind, CandidateValue, VariantKind};
use oxc_tailwindcss::compile::SpacingFacts;
use oxc_tailwindcss::design_system::DesignSystem;
use oxc_tailwindcss::loader::apply_css_configuration;

/// A design system with the built-in variants, a `sm` breakpoint, and the utilities the tests
/// read: `block` and `flex`, and `bg`, `w` and `translate-x` (which allows a negative value).
fn design() -> DesignSystem {
    let mut design = DesignSystem::new(1, Vec::new());
    let css = "@theme { --breakpoint-sm: 40rem; --color-red-500: red; }
        @utility block { display: block; }
        @utility flex { display: flex; }
        @utility bg-* { background-color: --value(--color-*); }
        @utility w-* { width: --value(--spacing); }
        @utility translate-x-* { translate: --value(--spacing); }";
    assert!(apply_css_configuration(&mut design, &PathBuf::from("<memory>"), css).is_ok());
    design.negative_utilities.insert("translate-x");
    let breakpoints: Vec<String> = design.breakpoints().into_iter().map(|(name, _)| name).collect();
    design.register_theme_variants(&breakpoints);
    design
}

#[test]
fn parses_and_prints_candidates() {
    let design = design();
    for (input, expected) in [
        ("block", "block"),
        ("hover:focus:bg-red-500/50!", "hover:focus:bg-red-500/50!"),
        ("bg-[color:var(--brand)]", "bg-(color:--brand)"),
        ("w-(--sidebar)", "w-(--sidebar)"),
        ("[color:red]", "[color:red]"),
        ("group-hover:block", "group-hover:block"),
    ] {
        let candidates = design.parse_candidate(input);
        assert!(!candidates.is_empty(), "failed to parse {input}");
        assert_eq!(candidates[0].print(&design), expected);
    }
}

#[test]
fn preserves_candidate_shape() {
    let design = design();
    let candidate = design.parse_candidate("w-1/2").pop().expect("candidate");
    let CandidateKind::Functional { value: Some(CandidateValue::Named(value)), .. } = candidate.kind else {
        panic!("expected functional named candidate");
    };
    assert_eq!(value.value, "1");
    assert_eq!(value.fraction.as_deref(), Some("1/2"));
}

#[test]
fn rejects_invalid_arbitrary_values() {
    let design = design();
    assert!(design.parse_candidate("bg-[]").is_empty());
    assert!(design.parse_candidate("[Color:red]").is_empty());
    assert!(design.parse_variant("[]").is_none());
}

#[test]
fn rejects_invalid_candidate_shapes() {
    let design = design();
    for input in [
        "flex/foo/bar",
        "bg-red-500/50/25",
        "bg-[#0088cc",
        "bg-(my-color)",
        "[@media(width>=123px){&:hover}]:flex",
    ] {
        assert!(design.parse_candidate(input).is_empty(), "unexpectedly parsed {input}");
    }
}

#[test]
fn parses_tailwind_v4_candidate_forms() {
    let design = design();
    for input in [
        "-translate-x-4",
        "[&_p]:flex",
        "supports-(--test):flex",
        "data-[disabled]:flex",
        "group-[&_p]/parent-name:flex",
        "bg-[#0088cc]",
        "bg-[color:var(--value)]",
        "bg-(color:--my-color)",
        "bg-red-500/[50%]",
    ] {
        assert!(!design.parse_candidate(input).is_empty(), "failed to parse {input}");
    }
}

#[test]
fn parses_compound_variants() {
    let design = design();
    let variant = design.parse_variant("not-group-hover/name").expect("compound variant");
    let VariantKind::Compound { root, variant, modifier } = variant.kind else {
        panic!("expected compound variant");
    };
    assert_eq!(root, "not");
    assert!(modifier.is_none());
    assert!(matches!(variant.kind, VariantKind::Compound { .. }));
    assert!(design.parse_variant("group-sm").is_none());
    assert!(design.parse_variant("not-sm").is_some());
}

#[test]
fn prefix_is_required_and_printed() {
    let mut design = DesignSystem::new(1, Vec::new());
    let css = "@import 'tailwindcss' prefix(tw); @utility flex { display: flex; }";
    assert!(apply_css_configuration(&mut design, &PathBuf::from("<memory>"), css).is_ok());
    assert_eq!(design.prefix(), Some("tw"));
    assert!(design.parse_candidate("flex").is_empty());
    let candidates = design.parse_candidate("tw:hover:flex");
    assert_eq!(candidates.len(), 1);
    assert_eq!(candidates[0].print(&design), "tw:hover:flex");
}

#[test]
fn stylesheet_with_plugin_is_refused() {
    let mut design = DesignSystem::new(1, Vec::new());
    let result = apply_css_configuration(&mut design, &PathBuf::from("app.css"), "@plugin 'forms'; @utility flex { display: flex; }");
    assert!(result.is_err());
    assert!(!design.has_static_utility("flex"));
}

#[test]
fn custom_variants_are_registered_after_the_others() {
    let mut design = DesignSystem::new(1, Vec::new());
    let before = design.next_variant_order();
    let css = "@custom-variant hocus (&:hover, &:focus); @custom-variant print-only { @media print { @slot; } }";
    assert!(apply_css_configuration(&mut design, &PathBuf::from("<memory>"), css).is_ok());
    assert!(design.variant_registration("hocus").is_some());
    assert!(!design.variant_is_global("hocus"));
    assert!(design.variant_is_global("print-only"));
    let print_only = design.variant_registration("print-only").unwrap().order();
    assert_eq!(print_only, before);
    assert_eq!(design.variant_registration("hocus").unwrap().order(), before + 1);
}

fn order_of(entries: &[(String, u32)], name: &str) -> u32 {
    entries.iter().find(|(key, _)| key == name).map(|(_, order)| *order).expect("variant in the order")
}

#[test]
fn marks_global_and_selector_variants() {
    let mut design = design();
    let css = "@custom-variant hocus (&:hover, &:focus);
        @custom-variant print-only { @media print { @slot; } }
        @custom-variant dark (&:where(.dark, .dark *));";
    assert!(apply_css_configuration(&mut design, &PathBuf::from("<memory>"), css).is_ok());
    let order = design.variant_order(&vec!["sm:block", "print-only:block", "hocus:block", "dark:block"]);
    assert_ne!(order_of(&order, "sm") & (1 << 30), 0);
    assert_ne!(order_of(&order, "print-only") & (1 << 30), 0);
    assert_eq!(order_of(&order, "hocus") & (1 << 30), 0);
    assert_eq!(order_of(&order, "dark") & (1 << 30), 0);

    let candidates = design.parse_candidate("group-dark:block");
    let facts = vec![SpacingFacts { value: false, modifier: false }; candidates.len()];
    assert!(!design.compile_candidates(&candidates, &facts).is_empty());

    let mut defaults = DesignSystem::new(1, Vec::new());
    let css = "@theme { --breakpoint-lg: 64rem; --color-red-500: red; }";
    assert!(apply_css_configuration(&mut defaults, &PathBuf::from("<memory>"), css).is_ok());
    defaults.register_utilities(&vec!["block"], &vec!["text"], &vec![]);
    let breakpoints: Vec<String> = defaults.breakpoints().into_iter().map(|(name, _)| name).collect();
    defaults.register_theme_variants(&breakpoints);
    let order = defaults.variant_order(&vec!["dark:lg:text-red-500"]);
    assert!(order_of(&order, "dark") > order_of(&order, "lg"));
    let order = defaults.variant_order(&vec!["[&.dragging]:lg:text-red-500"]);
    assert!(order_of(&order, "[&.dragging]") > (order_of(&order, "lg") & !(1 << 30)));
}
