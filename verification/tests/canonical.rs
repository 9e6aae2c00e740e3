use oxc_tailwindcss::canonical::{
    canonical_arbitrary_variant, canonical_attribute_variant, canonical_grid_track_count, canonical_nth_variant,
    canonical_pseudo_variant, canonicalize_deprecated, class_parts, collapse_patterns, find_collapse,
    hyphenate_theme_path, is_css_dimension, is_simple_variant_value, is_spacing_utility, legacy_theme_variable,
    matching_parenthesis, negate_value, negated_variable, normalize_comma_whitespace,
    normalize_legacy_theme_path, property_utility, rewrite_spacing_calculations, static_equivalent,
    top_level_operator,
};
use std::path::PathBuf;

use oxc_tailwindcss::candidate::{ArbitraryValue, Candidate, CandidateKind, CandidateValue, Variant, VariantKind, VariantValue};
use oxc_tailwindcss::collapse::{collapse_step, find_text_leading_collapse, unique_classes};
use oxc_tailwindcss::loader::apply_css_configuration;
use oxc_tailwindcss::theme_functions::{rewrite_theme_functions, theme_spacing_queries};
use oxc_tailwindcss::canonical_utility::{
    canonicalize_candidate_kind, canonicalize_variant, numeric_queries, rewrite_input, settled_spelling, variant_rewrite_input,
    NumericAnswers,
};
use oxc_tailwindcss::design_system::DesignSystem;
use oxc_tailwindcss::numbers::{is_canonical_u64, parse_u32, parses_as_float};

#[test]
fn arbitrary_variants_name_built_in_ones() {
    assert_eq!(canonical_arbitrary_variant("@media print").as_deref(), Some("print"));
    assert_eq!(canonical_arbitrary_variant("@media not print").as_deref(), Some("not-print"));
    assert_eq!(
        canonical_arbitrary_variant("@media (prefers-color-scheme: dark)").as_deref(),
        Some("dark")
    );
    assert_eq!(
        canonical_arbitrary_variant("@media not (min-width: 40rem)").as_deref(),
        Some("not-[@media (min-width: 40rem)]")
    );
    assert_eq!(canonical_arbitrary_variant("& > *"), None);
    assert_eq!(canonical_arbitrary_variant("&:focus").as_deref(), Some("focus"));
    assert_eq!(canonical_arbitrary_variant("&[data-open]").as_deref(), Some("data-open"));
}

#[test]
fn pseudo_classes_become_variants() {
    assert_eq!(canonical_pseudo_variant(":first-child").as_deref(), Some("first"));
    assert_eq!(canonical_pseudo_variant("&:not(:first-child)").as_deref(), Some("not-first"));
    assert_eq!(canonical_pseudo_variant("&:not(:nth-child(odd))").as_deref(), Some("even"));
    assert_eq!(canonical_pseudo_variant("&:nth-child(3)").as_deref(), Some("nth-3"));
    assert_eq!(canonical_pseudo_variant("&:hover"), None);
    assert_eq!(canonical_nth_variant("nth-last-child(2n+1)").as_deref(), Some("nth-last-[2n+1]"));
    assert_eq!(canonical_nth_variant("nth-of-type(2)"), None);
}

#[test]
fn attributes_become_data_and_aria_variants() {
    assert_eq!(canonical_attribute_variant("&:is([data-state=open])").as_deref(), Some("data-[state=open]"));
    assert_eq!(canonical_attribute_variant("[aria-expanded=\"true\"]").as_deref(), Some("aria-expanded"));
    assert_eq!(canonical_attribute_variant("[aria-sort=\"asc\"]").as_deref(), Some("aria-[sort=\"asc\"]"));
    assert_eq!(canonical_attribute_variant("[open]"), None);
    assert!(is_simple_variant_value("open_now-2"));
    assert!(!is_simple_variant_value(""));
    assert!(!is_simple_variant_value("a=b"));
}

#[test]
fn arbitrary_properties_name_utilities() {
    assert_eq!(static_equivalent("display", "none"), Some("hidden"));
    assert_eq!(static_equivalent("display", "contents"), None);
    assert_eq!(property_utility("padding-inline"), Some("px"));
    assert_eq!(property_utility("gap"), None);
    assert!(is_spacing_utility("inset-y"));
    assert!(!is_spacing_utility("z"));
}

#[test]
fn values_are_rewritten() {
    assert_eq!(negate_value("-4px"), "4px");
    assert_eq!(negate_value("4px"), "-4px");
    assert_eq!(negated_variable("calc(var(--gap)*-1)"), Some("--gap"));
    assert_eq!(negated_variable("calc(-1*var(--gap))"), Some("--gap"));
    assert_eq!(negated_variable("calc(var(gap)*-1)"), None);
    assert_eq!(rewrite_spacing_calculations("calc(var(--spacing)*8)"), "--spacing(8)");
    assert_eq!(
        rewrite_spacing_calculations("a calc(var(--spacing)*(2)) b calc(var(--spacing)*3"),
        "a --spacing((2)) b calc(var(--spacing)*3"
    );
    assert_eq!(normalize_comma_whitespace(" a ,  b   c , d "), "a,b c,d");
    assert_eq!(normalize_legacy_theme_path("colors[red][500]"), "colors.red.500");
    assert_eq!(hyphenate_theme_path("red.500"), "red-500");
    let chars: Vec<char> = "f(a(b)c)d".chars().collect();
    assert_eq!(matching_parenthesis(&chars, 1), Some(7));
    assert_eq!(top_level_operator("1px+(2px-3px)-4px", &vec!['+', '-']), Some((13, '-')));
    assert_eq!(top_level_operator("-1px", &vec!['+', '-']), None);
    assert_eq!(top_level_operator("1px)", &vec!['+', '-']), None);
    assert_eq!(canonical_grid_track_count("repeat(3, minmax(0, 1fr))"), Some("3"));
    assert_eq!(canonical_grid_track_count("repeat(0,minmax(0,1fr))"), None);
    assert!(is_css_dimension("1.5rem"));
    assert!(is_css_dimension("50%"));
    assert!(!is_css_dimension("rem"));
}

#[test]
fn deprecated_utilities_are_renamed() {
    let design = DesignSystem::new(1, Vec::new());
    assert_eq!(canonicalize_deprecated(&design, "bg-gradient-to-r").as_deref(), Some("bg-linear-to-r"));
    assert_eq!(canonicalize_deprecated(&design, "hover:-start-8").as_deref(), Some("hover:-inset-s-8"));
    assert_eq!(canonicalize_deprecated(&design, "!order-none").as_deref(), Some("order-0!"));
    assert_eq!(canonicalize_deprecated(&design, "flex"), None);
    assert_eq!(legacy_theme_variable(&design, "theme(colors.red.500)"), None);
}

#[test]
fn longhands_collapse_into_shorthands() {
    assert_eq!(class_parts("hover:px-2!", "px"), Some(("hover:", "2", "!")));
    assert_eq!(class_parts("px-", "px"), None);
    let patterns = collapse_patterns(true);
    assert_eq!(patterns.len(), 31);
    assert_eq!(collapse_patterns(false).len(), 29);
    let classes = vec!["h-4".to_owned(), "underline".to_owned(), "w-4".to_owned()];
    assert_eq!(find_collapse(&classes, &patterns[0]), Some((vec![0, 2], "size-4".to_owned())));
    let borders = vec!["border-t-1".to_owned(), "border-b-1".to_owned()];
    let border_y = patterns.iter().find(|pattern| pattern.output == "border-y").unwrap();
    assert_eq!(find_collapse(&borders, border_y), Some((vec![0, 1], "border-y".to_owned())));
    let unmatched = vec!["w-4".to_owned(), "h-5".to_owned()];
    assert_eq!(find_collapse(&unmatched, &patterns[0]), None);
}

#[test]
fn numbers_parse_as_std_reads_them() {
    for text in [
        "1", "-1", "+1.5", ".5", "5.", "1e5", "1E-5", "1e", "e5", ".", "", "-", "inf", "-Infinity", "NaN", "nan1",
        "1.2.3", "1_0", "0x10", " 1", "1e+", "12345678901234567890123", "infinit",
    ] {
        assert_eq!(parses_as_float(text), text.parse::<f64>().is_ok(), "{text}");
        assert_eq!(parse_u32(text), text.parse::<u32>().ok(), "{text}");
    }
    assert_eq!(parse_u32("+7"), Some(7));
    assert_eq!(parse_u32("-0"), None);
    assert_eq!(parse_u32("4294967296"), None);
    assert!(is_canonical_u64("18446744073709551615"));
    assert!(!is_canonical_u64("18446744073709551616"));
    assert!(!is_canonical_u64("01"));
}

fn candidate(kind: CandidateKind, raw: &str) -> Candidate {
    Candidate { kind, variants: Vec::new(), important: false, raw: raw.to_owned() }
}

fn functional_arbitrary(root: &str, data_type: Option<&str>, value: &str) -> CandidateKind {
    CandidateKind::Functional {
        root: root.to_owned(),
        value: Some(CandidateValue::Arbitrary(ArbitraryValue {
            data_type: data_type.map(str::to_owned),
            value: value.to_owned(),
        })),
        modifier: None,
    }
}

fn no_answers() -> NumericAnswers {
    NumericAnswers {
        fraction_parts_valid: false,
        pixel: None,
        percentage: None,
        legacy_spacing: None,
        magnitude_step: None,
        theme_name: None,
        value_step: None,
    }
}

fn canonical(design: &DesignSystem, kind: CandidateKind, answers: NumericAnswers) -> String {
    let mut candidate = candidate(kind, "");
    let rewritten = rewrite_input(&candidate.kind).unwrap_or_default();
    canonicalize_candidate_kind(design, &mut candidate, None, &rewritten, &answers);
    candidate.print(design)
}

#[test]
fn arbitrary_properties_become_utilities() {
    let design = DesignSystem::new(1, Vec::new());
    let hidden = CandidateKind::Arbitrary { property: "display".to_owned(), value: " none ".to_owned(), modifier: None };
    assert_eq!(rewrite_input(&hidden), None);
    assert_eq!(canonical(&design, hidden, no_answers()), "hidden");
    let width = CandidateKind::Arbitrary { property: "width".to_owned(), value: " 10px".to_owned(), modifier: None };
    assert_eq!(rewrite_input(&width).as_deref(), Some("10px"));
    let step = NumericAnswers { value_step: Some("2.5".to_owned()), ..no_answers() };
    assert_eq!(canonical(&design, width, step), "w-2.5");
    let gap = CandidateKind::Arbitrary { property: "gap".to_owned(), value: "1px".to_owned(), modifier: None };
    assert_eq!(rewrite_input(&gap), None);
    assert_eq!(canonical(&design, gap, no_answers()), "[gap:1px]");
}

#[test]
fn bare_values_replace_arbitrary_ones() {
    let design = DesignSystem::new(1, Vec::new());
    let pixel = NumericAnswers { pixel: Some("2".to_owned()), ..no_answers() };
    assert_eq!(canonical(&design, functional_arbitrary("border", None, "2px"), pixel), "border-2");
    let pixel = NumericAnswers { pixel: Some("2".to_owned()), ..no_answers() };
    assert_eq!(canonical(&design, functional_arbitrary("w", None, "2px"), pixel), "w-[2px]");
    let ratio = NumericAnswers { fraction_parts_valid: true, ..no_answers() };
    assert_eq!(canonical(&design, functional_arbitrary("aspect", None, "16/9"), ratio), "aspect-16/9");
    assert_eq!(
        canonical(&design, functional_arbitrary("grid-cols", None, "repeat(3,minmax(0,1fr))"), no_answers()),
        "grid-cols-3"
    );
    assert_eq!(canonical(&design, functional_arbitrary("col", None, "7"), no_answers()), "col-7");
    let stop = NumericAnswers { percentage: Some("10%".to_owned()), ..no_answers() };
    assert_eq!(canonical(&design, functional_arbitrary("from", None, "10%"), stop), "from-10%");
}

#[test]
fn backgrounds_move_by_data_type() {
    let design = DesignSystem::new(1, Vec::new());
    assert_eq!(canonical(&design, functional_arbitrary("bg", Some("position"), "center"), no_answers()), "bg-position-[center]");
    assert_eq!(canonical(&design, functional_arbitrary("bg", Some("size"), "cover"), no_answers()), "bg-size-[cover]");
    assert_eq!(canonical(&design, functional_arbitrary("bg", None, "10px"), no_answers()), "bg-position-[10px]");
    assert_eq!(canonical(&design, functional_arbitrary("bg", None, "red"), no_answers()), "bg-[red]");
}

#[test]
fn negative_values_turn_around() {
    let design = DesignSystem::new(1, Vec::new());
    assert_eq!(
        canonical(&design, functional_arbitrary("m", None, "calc(var(--gap)*-1)"), no_answers()),
        "-m-(--gap)"
    );
    assert_eq!(
        canonical(&design, functional_arbitrary("-m", None, "calc(var(--gap)*-1)"), no_answers()),
        "m-(--gap)"
    );
    assert_eq!(canonical(&design, functional_arbitrary("-m", None, "4px"), no_answers()), "m-[-4px]");
    let step = NumericAnswers { magnitude_step: Some("1".to_owned()), ..no_answers() };
    assert_eq!(canonical(&design, functional_arbitrary("-m", None, "4px"), step), "-m-1");
    let step = NumericAnswers { magnitude_step: Some("1".to_owned()), ..no_answers() };
    assert_eq!(canonical(&design, functional_arbitrary("-m", None, "-4px"), step), "m-1");
}

#[test]
fn queries_name_the_values_asked() {
    let design = DesignSystem::new(1, Vec::new());
    let queries = numeric_queries(&design, &functional_arbitrary("-m", None, "old"), "-4px").unwrap();
    assert_eq!(queries.value, "-4px");
    assert_eq!(queries.fraction, None);
    assert_eq!(queries.magnitude.as_deref(), Some("4px"));
    assert_eq!(queries.theme_root, "m");
    assert_eq!(queries.theme_value, "4px");
    let queries = numeric_queries(&design, &functional_arbitrary("aspect", None, "4/3"), "4/3").unwrap();
    assert_eq!(queries.fraction, Some(("4".to_owned(), "3".to_owned())));
    assert_eq!(queries.magnitude, None);
    let static_kind = CandidateKind::Static { root: "flex".to_owned() };
    assert!(numeric_queries(&design, &static_kind, "").is_none());
}

fn themed_design() -> DesignSystem {
    let mut design = DesignSystem::new(1, Vec::new());
    let css = "@theme { --spacing: 0.25rem; --color-red-500: red; --text-sm: 0.875rem; --text-sm--line-height: 1.25rem; }";
    assert!(apply_css_configuration(&mut design, &PathBuf::from("<memory>"), css).is_ok());
    design
}

#[test]
fn legacy_theme_functions_become_variables() {
    let design = themed_design();
    let input = "theme(colors.red.500) theme(spacing[4]) theme(colors.blue.500) theme(fontSize.sm.1.lineHeight) theme(spacing.x";
    let queries = theme_spacing_queries(input);
    assert_eq!(queries, vec![None, Some("4".to_owned()), None, None]);
    assert_eq!(
        rewrite_theme_functions(&design, input, false, &vec![false, true, false, false]),
        "var(--color-red-500) --spacing(4) theme(colors.blue.500) var(--text-sm--line-height) theme(spacing.x"
    );
    assert_eq!(
        rewrite_theme_functions(&design, input, true, &vec![false, false, false, false]),
        "--theme(--color-red-500) theme(spacing[4]) theme(colors.blue.500) --theme(--text-sm--line-height) theme(spacing.x"
    );
    assert_eq!(rewrite_theme_functions(&design, "theme(colors.red.500, red)", false, &Vec::new()), "theme(colors.red.500, red)");
    let bare = DesignSystem::new(1, Vec::new());
    assert_eq!(rewrite_theme_functions(&bare, "theme(spacing.4)", false, &vec![true]), "theme(spacing.4)");
}

#[test]
fn variants_take_their_canonical_form() {
    let design = DesignSystem::new(1, Vec::new());
    let mut focus = Variant { kind: VariantKind::Arbitrary { selector: "&:focus".to_owned(), relative: false } };
    assert_eq!(variant_rewrite_input(&focus), None);
    canonicalize_variant(&design, &mut focus, "");
    assert_eq!(focus.print(), "focus");
    let mut data = Variant {
        kind: VariantKind::Functional { root: "data".to_owned(), value: Some(VariantValue::Arbitrary("old".to_owned())), modifier: None },
    };
    assert_eq!(variant_rewrite_input(&data).as_deref(), Some("old"));
    canonicalize_variant(&design, &mut data, "open");
    assert_eq!(data.print(), "data-open");
    let mut aria = Variant {
        kind: VariantKind::Functional { root: "aria".to_owned(), value: Some(VariantValue::Arbitrary("expanded=\"true\"".to_owned())), modifier: None },
    };
    canonicalize_variant(&design, &mut aria, "expanded=\"true\"");
    assert_eq!(aria.print(), "aria-expanded");
    let mut sort = Variant {
        kind: VariantKind::Functional { root: "aria".to_owned(), value: Some(VariantValue::Arbitrary("sort=\"asc\"".to_owned())), modifier: None },
    };
    canonicalize_variant(&design, &mut sort, "sort=\"asc\"");
    assert_eq!(sort.print(), "aria-[sort=\"asc\"]");
}

fn strings(classes: &[&str]) -> Vec<String> {
    classes.iter().map(|class_name| (*class_name).to_owned()).collect()
}

#[test]
fn collapse_steps_shorten_the_list() {
    let mut classes = strings(&["hover:text-sm", "mt-2", "hover:leading-6", "mb-2", "ml-2"]);
    let font_size = vec![true, false, false, false, false];
    assert_eq!(find_text_leading_collapse(&classes, &font_size), Some((vec![0, 2], "hover:text-sm/6".to_owned())));
    assert!(collapse_step(&mut classes, &font_size, false));
    assert_eq!(classes, strings(&["mt-2", "mb-2", "ml-2", "hover:text-sm/6"]));
    assert!(collapse_step(&mut classes, &vec![false; 4], false));
    assert_eq!(classes, strings(&["ml-2", "hover:text-sm/6", "my-2"]));
    assert!(!collapse_step(&mut classes, &vec![false; 3], false));
    assert_eq!(classes, strings(&["ml-2", "hover:text-sm/6", "my-2"]));
    let mut classes = strings(&["text-sm", "leading-6"]);
    assert!(!collapse_step(&mut classes, &vec![false, false], false));
    let mut classes = strings(&["ml-2", "mr-2"]);
    assert!(!collapse_step(&mut classes, &vec![false, false], false));
    assert!(collapse_step(&mut classes, &vec![false, false], true));
    assert_eq!(classes, strings(&["mx-2"]));
}

#[test]
fn collapsing_keeps_classes_unique() {
    let mut classes = strings(&["my-2", "mt-2", "flex", "mb-2"]);
    assert!(collapse_step(&mut classes, &vec![false; 4], false));
    assert_eq!(classes, strings(&["my-2", "flex"]));
}

#[test]
fn repeated_classes_are_dropped() {
    let classes = strings(&["flex", "p-2", "flex", "m-1", "p-2"]);
    assert_eq!(unique_classes(&classes), strings(&["flex", "p-2", "m-1"]));
    assert_eq!(unique_classes(&Vec::new()), Vec::<String>::new());
}

#[test]
fn deprecated_and_unknown_classes_are_settled() {
    let design = DesignSystem::new(1, Vec::new());
    assert_eq!(settled_spelling(&design, "bg-gradient-to-r", true).as_deref(), Some("bg-linear-to-r"));
    assert_eq!(settled_spelling(&design, "bg-gradient-to-r", false).as_deref(), Some("bg-linear-to-r"));
    assert_eq!(settled_spelling(&design, "not-a-class", false).as_deref(), Some("not-a-class"));
    assert_eq!(settled_spelling(&design, "flex", true), None);
}
