use oxc_tailwindcss::class_rewrites::{
    EnforceConsistentImportantPosition, EnforceConsistentVariableSyntax, ImportantPosition,
    NoDeprecatedClasses, VariableSyntax,
};
use oxc_tailwindcss::enforce_consistent_class_order::EnforceConsistentClassOrder;
use oxc_tailwindcss::enforce_consistent_line_wrapping::{
    EnforceConsistentLineWrapping, EnforceConsistentLineWrappingConfig, WrapNode, WrapTarget,
};
use oxc_tailwindcss::enforce_consistent_variant_order::EnforceConsistentVariantOrder;
use oxc_tailwindcss::classes::tailwind_classes;
use oxc_tailwindcss::lint::{tailwind_literal, Ancestor, LiteralNode, SourceSpan, TailwindLiteral};
use oxc_tailwindcss::no_duplicate_classes::NoDuplicateClasses;
use oxc_tailwindcss::no_unnecessary_whitespace::NoUnnecessaryWhitespace;
use oxc_tailwindcss::no_restricted_classes::{NoRestrictedClasses, NoRestrictedClassesConfig, RestrictionConfig};
use oxc_tailwindcss::no_unknown_classes::{NoUnknownClasses, NoUnknownClassesConfig};
use oxc_tailwindcss::enforce_logical_properties::{logical_candidates, EnforceLogicalProperties, EnforceLogicalPropertiesConfig};
use oxc_tailwindcss::enforce_canonical_classes::{CanonicalClass, EnforceCanonicalClasses, EnforceCanonicalClassesConfig};
use oxc_tailwindcss::compile::{conflicts_between, SpacingFacts};
use oxc_tailwindcss::enforce_shorthand_classes::EnforceShorthandClasses;
use oxc_tailwindcss::no_conflicting_classes::NoConflictingClasses;
use oxc_tailwindcss::candidate::{Candidate, CandidateKind, CandidateValue, Modifier};
use oxc_tailwindcss::design_system::DesignSystem;

/// A class literal of a test script: the literal, its class string and where that string
/// starts in the script, in bytes.
struct Found {
    literal: TailwindLiteral,
    content: String,
    offset: usize,
}

fn span(start: usize, end: usize) -> SourceSpan {
    SourceSpan { start: start as u32, end: end as u32 }
}

/// The span of the `nth` occurrence of `text` in `source`.
fn find(source: &str, text: &str, nth: usize) -> SourceSpan {
    let start = source.match_indices(text).nth(nth).expect("text in source").0;
    span(start, start + text.len())
}

/// The class literal for the string literal `quoted` (quotes included) of `source`.
fn string_literal(source: &str, quoted: &str, ancestors: &[Ancestor]) -> Option<Found> {
    let node_span = find(source, quoted, 0);
    let node = LiteralNode::String { span: node_span, source: quoted };
    tailwind_literal(&node, ancestors).map(|literal| Found {
        literal,
        content: source[literal.span.start as usize..literal.span.end as usize].to_owned(),
        offset: literal.span.start as usize,
    })
}

/// The class literal for the template element `text` of `source`.
fn template_element(source: &str, text: &str, tail: bool, ancestors: &[Ancestor]) -> Option<Found> {
    let element = find(source, text, 0);
    let node = LiteralNode::Template { span: element, tail };
    tailwind_literal(&node, ancestors).map(|literal| Found {
        literal,
        content: source[literal.span.start as usize..literal.span.end as usize].to_owned(),
        offset: literal.span.start as usize,
    })
}

/// `source` with the edits (offsets in the class string) applied.
fn apply(source: &str, found: &Found, mut edits: Vec<(usize, usize, String)>) -> String {
    edits.sort_by_key(|edit| edit.0);
    let mut content = String::new();
    let mut cursor = 0;
    for (start, end, text) in edits {
        content.push_str(&found.content[cursor..start]);
        content.push_str(&text);
        cursor = end;
    }
    content.push_str(&found.content[cursor..]);
    format!("{}{}{}", &source[..found.offset], content, &source[found.offset + found.content.len()..])
}

fn jsx_class_name() -> Vec<Ancestor<'static>> {
    vec![Ancestor::JsxAttribute { name: Some("className") }]
}

fn call(name: &'static str) -> Vec<Ancestor<'static>> {
    vec![Ancestor::CallExpression { callee: Some(name) }]
}

fn duplicate_edits(found: &Found) -> Vec<(usize, usize, String)> {
    NoDuplicateClasses
        .check(&found.literal, &found.content)
        .iter()
        .map(|d| (d.removal_start, d.removal_end, String::new()))
        .collect()
}

#[test]
fn no_duplicate_classes_test() {
    // pass
    let source = r#"<div className="rounded underline" />"#;
    let found = string_literal(source, r#""rounded underline""#, &jsx_class_name()).unwrap();
    assert!(duplicate_edits(&found).is_empty());

    let source = r#"const label = "rounded rounded""#;
    let ancestors = [Ancestor::VariableDeclarator { binding: Some("label") }, Ancestor::Program];
    assert!(string_literal(source, r#""rounded rounded""#, &ancestors).is_none());

    let source = r#"clsx("rounded", foo("underline underline"))"#;
    let inner = [Ancestor::CallExpression { callee: Some("foo") }, Ancestor::CallExpression { callee: Some("clsx") }];
    assert!(string_literal(source, r#""underline underline""#, &inner).is_none());
    let found = string_literal(source, r#""rounded""#, &call("clsx")).unwrap();
    assert!(duplicate_edits(&found).is_empty());

    let source = r#"clsx({ variant: "rounded rounded" })"#;
    let property = find(source, r#"variant: "rounded rounded""#, 0);
    let ancestors = [
        Ancestor::ObjectProperty { span: property, string_key: None },
        Ancestor::Other { span: find(source, r#"{ variant: "rounded rounded" }"#, 0) },
        Ancestor::CallExpression { callee: Some("clsx") },
    ];
    assert!(string_literal(source, r#""rounded rounded""#, &ancestors).is_none());

    let source = r#"const classes = { "rounded rounded": condition }"#;
    let key = find(source, r#""rounded rounded""#, 0);
    let ancestors = [
        Ancestor::ObjectProperty { span: find(source, r#""rounded rounded": condition"#, 0), string_key: Some(key) },
        Ancestor::Other { span: find(source, r#"{ "rounded rounded": condition }"#, 0) },
        Ancestor::VariableDeclarator { binding: Some("classes") },
    ];
    assert!(string_literal(source, r#""rounded rounded""#, &ancestors).is_none());

    let source = r#"tw`rounded ${condition ? "underline" : "italic"} rounded`"#;
    let template = find(source, r#"`rounded ${condition ? "underline" : "italic"} rounded`"#, 0);
    let first = find(source, "rounded ", 0);
    let ancestors = [
        Ancestor::TemplateLiteral { span: template, first_quasi: Some(first) },
        Ancestor::TaggedTemplate { tag: Some("tw") },
    ];
    let head = template_element(source, "rounded ", false, &ancestors).unwrap();
    assert!(duplicate_edits(&head).is_empty());
    let tail_element = span(first.end as usize + r#"${condition ? "underline" : "italic"}"#.len(), template.end as usize - 1);
    let node = LiteralNode::Template { span: tail_element, tail: true };
    let literal = tailwind_literal(&node, &ancestors).unwrap();
    let content = &source[literal.span.start as usize..literal.span.end as usize];
    assert_eq!(content, " rounded");
    assert!(NoDuplicateClasses.check(&literal, content).is_empty());
    let conditional = [
        Ancestor::Other { span: find(source, r#"condition ? "underline" : "italic""#, 0) },
        Ancestor::TemplateLiteral { span: template, first_quasi: Some(first) },
        Ancestor::TaggedTemplate { tag: Some("tw") },
    ];
    let found = string_literal(source, r#""underline""#, &conditional).unwrap();
    assert!(duplicate_edits(&found).is_empty());

    // fail, and fix
    let source = r#"<div className="rounded underline rounded" />"#;
    let found = string_literal(source, r#""rounded underline rounded""#, &jsx_class_name()).unwrap();
    let edits = duplicate_edits(&found);
    assert!(!edits.is_empty());
    assert_eq!(apply(source, &found, edits), r#"<div className="rounded underline" />"#);

    let source = r#"<div class={'p-4  p-4 text-sm'} />"#;
    let ancestors = [
        Ancestor::Other { span: find(source, r#"{'p-4  p-4 text-sm'}"#, 0) },
        Ancestor::JsxAttribute { name: Some("class") },
    ];
    let found = string_literal(source, "'p-4  p-4 text-sm'", &ancestors).unwrap();
    assert!(!duplicate_edits(&found).is_empty());

    let source = r#"clsx("flex flex")"#;
    let found = string_literal(source, r#""flex flex""#, &call("clsx")).unwrap();
    let edits = duplicate_edits(&found);
    assert!(!edits.is_empty());
    assert_eq!(apply(source, &found, edits), r#"clsx("flex")"#);

    let source = r#"clsx("flex flex flex")"#;
    let found = string_literal(source, r#""flex flex flex""#, &call("clsx")).unwrap();
    assert_eq!(apply(source, &found, duplicate_edits(&found)), r#"clsx("flex")"#);

    let source = r#"clsx({ "block block": condition })"#;
    let key = find(source, r#""block block""#, 0);
    let ancestors = [
        Ancestor::ObjectProperty { span: find(source, r#""block block": condition"#, 0), string_key: Some(key) },
        Ancestor::Other { span: find(source, r#"{ "block block": condition }"#, 0) },
        Ancestor::CallExpression { callee: Some("clsx") },
    ];
    let found = string_literal(source, r#""block block""#, &ancestors).unwrap();
    assert!(!duplicate_edits(&found).is_empty());

    let source = "const classNames = `px-2 px-2`";
    let element = find(source, "px-2 px-2", 0);
    let ancestors = [
        Ancestor::TemplateLiteral { span: find(source, "`px-2 px-2`", 0), first_quasi: Some(element) },
        Ancestor::VariableDeclarator { binding: Some("classNames") },
    ];
    let found = template_element(source, "px-2 px-2", true, &ancestors).unwrap();
    let edits = duplicate_edits(&found);
    assert!(!edits.is_empty());
    assert_eq!(apply(source, &found, edits), "const classNames = `px-2`");
}

fn deprecated_edits(found: &Found) -> (usize, Vec<(usize, usize, String)>) {
    let reports = NoDeprecatedClasses.check(&found.literal, &found.content);
    let edits = reports
        .iter()
        .filter_map(|r| r.replacement.as_ref().map(|text| (r.start, r.end, text.clone())))
        .collect();
    (reports.len(), edits)
}

#[test]
fn no_deprecated_classes_test() {
    let source = r#"<div className="shadow-sm grow text-ellipsis" />"#;
    let found = string_literal(source, r#""shadow-sm grow text-ellipsis""#, &jsx_class_name()).unwrap();
    assert_eq!(deprecated_edits(&found).0, 0);

    let source = r#"<div className="shadow hover:flex-shrink-0" />"#;
    let found = string_literal(source, r#""shadow hover:flex-shrink-0""#, &jsx_class_name()).unwrap();
    let (count, edits) = deprecated_edits(&found);
    assert_eq!(count, 2);
    assert_eq!(apply(source, &found, edits), r#"<div className="shadow-sm hover:shrink-0" />"#);

    let source = r#"cn("bg-opacity-50")"#;
    let found = string_literal(source, r#""bg-opacity-50""#, &call("cn")).unwrap();
    let (count, edits) = deprecated_edits(&found);
    assert_eq!(count, 1);
    assert!(edits.is_empty());
}

/// The fixed script for the line wrapping lint, or `None` when it reports nothing.
fn wrap(source: &str, found: &Found, node: &WrapNode, node_span: SourceSpan) -> Option<String> {
    let line_start = source[..found.offset].rfind('\n').map_or(0, |index| index + 1);
    let line_before = &source[line_start..found.offset];
    let report = EnforceConsistentLineWrapping::new().check(&found.literal, &found.content, line_before, node)?;
    Some(match report.target {
        WrapTarget::Content => apply(source, found, vec![(0, found.content.len(), report.replacement)]),
        WrapTarget::Node => format!(
            "{}{}{}",
            &source[..node_span.start as usize],
            report.replacement,
            &source[node_span.end as usize..]
        ),
    })
}

#[test]
fn enforce_consistent_line_wrapping_test() {
    let source = "<div className={`\n  block\n  hover:flex\n`} />";
    let template = find(source, "`\n  block\n  hover:flex\n`", 0);
    let element = span(template.start as usize + 1, template.end as usize - 1);
    let ancestors = [
        Ancestor::TemplateLiteral { span: template, first_quasi: Some(element) },
        Ancestor::Other { span: find(source, "{`\n  block\n  hover:flex\n`}", 0) },
        Ancestor::JsxAttribute { name: Some("className") },
    ];
    let node = LiteralNode::Template { span: element, tail: true };
    let literal = tailwind_literal(&node, &ancestors).unwrap();
    let found = Found {
        literal,
        content: source[literal.span.start as usize..literal.span.end as usize].to_owned(),
        offset: literal.span.start as usize,
    };
    let wrap_node = WrapNode::Template { literal_source: Some(&source[template.start as usize..template.end as usize]) };
    assert_eq!(wrap(source, &found, &wrap_node, template), None);

    let source = r#"<div className="block hover:flex" />"#;
    let quoted = r#""block hover:flex""#;
    let found = string_literal(source, quoted, &jsx_class_name()).unwrap();
    let node_span = find(source, quoted, 0);
    let wrap_node = WrapNode::String { source: quoted, in_jsx: true };
    assert_eq!(
        wrap(source, &found, &wrap_node, node_span).as_deref(),
        Some("<div className={`\n  block\n  hover:flex\n`} />")
    );
}

#[test]
fn enforce_consistent_important_position_test() {
    let recommended = EnforceConsistentImportantPosition::new();
    let legacy = EnforceConsistentImportantPosition { position: ImportantPosition::Legacy };

    let source = r#"<div className="hover:bg-red-500!" />"#;
    let found = string_literal(source, r#""hover:bg-red-500!""#, &jsx_class_name()).unwrap();
    assert!(recommended.check(&found.literal, &found.content).is_empty());

    let source = r#"<div className="hover:!bg-red-500" />"#;
    let found = string_literal(source, r#""hover:!bg-red-500""#, &jsx_class_name()).unwrap();
    assert!(legacy.check(&found.literal, &found.content).is_empty());
    let fixes = recommended.check(&found.literal, &found.content);
    assert_eq!(fixes.len(), 1);
    let edits = fixes.into_iter().map(|f| (f.start, f.end, f.replacement)).collect();
    assert_eq!(apply(source, &found, edits), r#"<div className="hover:bg-red-500!" />"#);

    let source = r#"cn("-mt-2!")"#;
    let found = string_literal(source, r#""-mt-2!""#, &call("cn")).unwrap();
    let fixes = legacy.check(&found.literal, &found.content);
    assert_eq!(fixes.len(), 1);
    let edits = fixes.into_iter().map(|f| (f.start, f.end, f.replacement)).collect();
    assert_eq!(apply(source, &found, edits), r#"cn("!-mt-2")"#);
}

#[test]
fn enforce_consistent_variable_syntax_test() {
    let shorthand = EnforceConsistentVariableSyntax::new();
    let variable = EnforceConsistentVariableSyntax { syntax: VariableSyntax::Variable };

    for (quoted, rule) in [
        (r#""fill-(--brand)""#, shorthand),
        (r#""fill-[var(--brand)]""#, variable),
        (r#""[--brand:red]""#, shorthand),
        (r#""fill-[var(--one)_var(--two)]""#, shorthand),
    ] {
        let source = format!("<div className={quoted} />");
        let found = string_literal(&source, quoted, &jsx_class_name()).unwrap();
        assert!(rule.check(&found.literal, &found.content).is_empty(), "{source}");
    }

    let source = r#"<div className="fill-[var(--brand)]" />"#;
    let found = string_literal(source, r#""fill-[var(--brand)]""#, &jsx_class_name()).unwrap();
    let edits = shorthand.check(&found.literal, &found.content).into_iter().map(|f| (f.start, f.end, f.replacement)).collect::<Vec<_>>();
    assert_eq!(edits.len(), 1);
    assert_eq!(apply(source, &found, edits), r#"<div className="fill-(--brand)" />"#);

    let source = r#"cn("fill-(--brand)")"#;
    let found = string_literal(source, r#""fill-(--brand)""#, &call("cn")).unwrap();
    let edits = variable.check(&found.literal, &found.content).into_iter().map(|f| (f.start, f.end, f.replacement)).collect::<Vec<_>>();
    assert_eq!(edits.len(), 1);
    assert_eq!(apply(source, &found, edits), r#"cn("fill-[var(--brand)]")"#);
}

#[test]
fn enforce_consistent_variant_order_test() {
    let orders = vec![("dark".to_owned(), 1073741825_u32), ("hover".to_owned(), 2)];

    let source = r#"<div className="dark:hover:block" />"#;
    let found = string_literal(source, r#""dark:hover:block""#, &jsx_class_name()).unwrap();
    assert!(EnforceConsistentVariantOrder.check(&found.literal, &found.content, Some(&orders)).is_empty());

    let source = r#"<div className="hover:dark:block" />"#;
    let found = string_literal(source, r#""hover:dark:block""#, &jsx_class_name()).unwrap();
    let edits = EnforceConsistentVariantOrder
        .check(&found.literal, &found.content, Some(&orders))
        .into_iter()
        .map(|f| (f.start, f.end, f.replacement))
        .collect::<Vec<_>>();
    assert_eq!(edits.len(), 1);
    assert_eq!(apply(source, &found, edits), r#"<div className="dark:hover:block" />"#);
}

/// What the test design system answers for the class order: `flex`, `p-2`, `text-sm`, then
/// everything else.
fn class_orders(content: &str) -> Vec<(String, Option<String>)> {
    content
        .split_ascii_whitespace()
        .map(|name| {
            let order = match name {
                "flex" => "1",
                "p-2" => "2",
                "text-sm" => "3",
                _ => "4",
            };
            (name.to_owned(), Some(order.to_owned()))
        })
        .collect()
}

#[test]
fn enforce_consistent_class_order_test() {
    let rule = EnforceConsistentClassOrder::new();

    let source = r#"<div className="flex p-2 text-sm" />"#;
    let found = string_literal(source, r#""flex p-2 text-sm""#, &jsx_class_name()).unwrap();
    let orders = class_orders(&found.content);
    assert!(rule.check(&found.literal, &found.content, Some(&orders)).is_none());

    let source = r#"<div className="text-sm flex p-2" />"#;
    let found = string_literal(source, r#""text-sm flex p-2""#, &jsx_class_name()).unwrap();
    let orders = class_orders(&found.content);
    let report = rule.check(&found.literal, &found.content, Some(&orders)).unwrap();
    assert_eq!(
        apply(source, &found, vec![(0, found.content.len(), report.replacement)]),
        r#"<div className="flex p-2 text-sm" />"#
    );
}

fn whitespace_edits(rule: &NoUnnecessaryWhitespace, found: &Found) -> Vec<(usize, usize, String)> {
    rule.check(&found.literal, &found.content).into_iter().map(|f| (f.start, f.end, f.replacement)).collect()
}

#[test]
fn no_unnecessary_whitespace_test() {
    let rule = NoUnnecessaryWhitespace::new();
    let strict = NoUnnecessaryWhitespace { allow_multiline: false };

    let source = r#"<div className="rounded underline" />"#;
    let found = string_literal(source, r#""rounded underline""#, &jsx_class_name()).unwrap();
    assert!(whitespace_edits(&rule, &found).is_empty());

    let source = r#"const message = "  not classes  ""#;
    let ancestors = [Ancestor::VariableDeclarator { binding: Some("message") }];
    assert!(string_literal(source, r#""  not classes  ""#, &ancestors).is_none());

    let source = "const className = `rounded\n  underline`";
    let element = find(source, "rounded\n  underline", 0);
    let ancestors = [
        Ancestor::TemplateLiteral { span: find(source, "`rounded\n  underline`", 0), first_quasi: Some(element) },
        Ancestor::VariableDeclarator { binding: Some("className") },
    ];
    let found = template_element(source, "rounded\n  underline", true, &ancestors).unwrap();
    assert!(whitespace_edits(&rule, &found).is_empty());

    let source = r#"clsx({ variant: "  not classes  " })"#;
    let ancestors = [
        Ancestor::ObjectProperty { span: find(source, r#"variant: "  not classes  ""#, 0), string_key: None },
        Ancestor::CallExpression { callee: Some("clsx") },
    ];
    assert!(string_literal(source, r#""  not classes  ""#, &ancestors).is_none());

    let source = r#"<div className="  rounded  underline  " />"#;
    let found = string_literal(source, r#""  rounded  underline  ""#, &jsx_class_name()).unwrap();
    assert_eq!(apply(source, &found, whitespace_edits(&rule, &found)), r#"<div className="rounded underline" />"#);

    let source = r#"cn("flex   items-center")"#;
    let found = string_literal(source, r#""flex   items-center""#, &call("cn")).unwrap();
    assert_eq!(apply(source, &found, whitespace_edits(&rule, &found)), r#"cn("flex items-center")"#);

    let source = "const classes = `  rounded  `";
    let element = find(source, "  rounded  ", 0);
    let ancestors = [
        Ancestor::TemplateLiteral { span: find(source, "`  rounded  `", 0), first_quasi: Some(element) },
        Ancestor::VariableDeclarator { binding: Some("classes") },
    ];
    let found = template_element(source, "  rounded  ", true, &ancestors).unwrap();
    assert_eq!(apply(source, &found, whitespace_edits(&rule, &found)), "const classes = `rounded`");

    let source = "const classes = `rounded  \n  underline`";
    let element = find(source, "rounded  \n  underline", 0);
    let ancestors = [
        Ancestor::TemplateLiteral { span: find(source, "`rounded  \n  underline`", 0), first_quasi: Some(element) },
        Ancestor::VariableDeclarator { binding: Some("classes") },
    ];
    let found = template_element(source, "rounded  \n  underline", true, &ancestors).unwrap();
    assert!(!whitespace_edits(&rule, &found).is_empty());

    let source = "const classes = `rounded\n  underline`";
    let element = find(source, "rounded\n  underline", 0);
    let ancestors = [
        Ancestor::TemplateLiteral { span: find(source, "`rounded\n  underline`", 0), first_quasi: Some(element) },
        Ancestor::VariableDeclarator { binding: Some("classes") },
    ];
    let found = template_element(source, "rounded\n  underline", true, &ancestors).unwrap();
    assert_eq!(apply(source, &found, whitespace_edits(&strict, &found)), "const classes = `rounded underline`");
}

#[test]
fn no_restricted_classes_test() {
    let config = NoRestrictedClassesConfig {
        restrict: vec![
            RestrictionConfig::Pattern("^container$".to_owned()),
            RestrictionConfig::Detailed {
                pattern: "^text-(red|blue)-(.*)$".to_owned(),
                fix: Some("text-brand-$2".to_owned()),
                message: Some("Use a semantic color instead of $1.".to_owned()),
            },
        ],
    };
    let rule = NoRestrictedClasses::from_config(&config).ok().expect("patterns compile");

    // pass
    let source = r#"<div className="text-brand-500 flex" />"#;
    let found = string_literal(source, r#""text-brand-500 flex""#, &jsx_class_name()).unwrap();
    assert!(rule.check(&found.literal, &found.content).is_empty());
    let source = r#"const message = "container""#;
    let ancestors = [Ancestor::VariableDeclarator { binding: Some("message") }, Ancestor::Program];
    assert!(string_literal(source, r#""container""#, &ancestors).is_none());

    // fail
    let source = r#"<div className="container flex" />"#;
    let found = string_literal(source, r#""container flex""#, &jsx_class_name()).unwrap();
    let reports = rule.check(&found.literal, &found.content);
    assert_eq!(reports.len(), 1);
    assert_eq!((reports[0].start, reports[0].end), (0, 9));
    assert_eq!(reports[0].message, r#"Restricted class: "container"."#);
    assert!(reports[0].fix.is_none());
    let source = r#"clsx("text-red-500")"#;
    let found = string_literal(source, r#""text-red-500""#, &call("clsx")).unwrap();
    let reports = rule.check(&found.literal, &found.content);
    assert_eq!(reports.len(), 1);
    assert_eq!(reports[0].message, "Use a semantic color instead of red.");

    // fix
    let edits = reports.iter().map(|r| (r.start, r.end, r.fix.clone().unwrap())).collect();
    assert_eq!(apply(source, &found, edits), r#"clsx("text-brand-500")"#);

    let invalid = NoRestrictedClassesConfig { restrict: vec![RestrictionConfig::Pattern("foo(".to_owned())] };
    assert_eq!(NoRestrictedClasses::from_config(&invalid).err().map(|e| e.pattern), Some("foo(".to_owned()));
}

// Whether a value is a spacing step: a float that reads back the same, in quarters.
fn spacing_step(value: &str) -> bool {
    value.parse::<f64>().is_ok_and(|number| {
        let printed = if number.fract() == 0.0 { format!("{number:.0}") } else { number.to_string() };
        number >= 0.0 && number.is_finite() && (number * 4.0).fract() == 0.0 && printed == value
    })
}

fn facts(candidate: &Candidate) -> SpacingFacts {
    match &candidate.kind {
        CandidateKind::Functional { value, modifier, .. } => SpacingFacts {
            value: matches!(value, Some(CandidateValue::Named(v)) if spacing_step(&v.value)),
            modifier: matches!(modifier, Some(Modifier::Named(m)) if spacing_step(m)),
        },
        _ => SpacingFacts { value: false, modifier: false },
    }
}

/// The names that `design` does not know.
fn unknown_in<'a>(design: &DesignSystem, names: &[&'a str]) -> Vec<&'a str> {
    names
        .iter()
        .copied()
        .filter(|name| {
            let candidates = design.parse_candidate(name);
            let all = candidates.iter().map(facts).collect::<Vec<_>>();
            design.compile_candidates(&candidates, &all).is_empty()
        })
        .collect()
}

/// A design system with the built-in utilities and theme values the rule tests use.
fn builtin_design() -> DesignSystem {
    let mut design = DesignSystem::new(1, Vec::new());
    design.theme.insert("--spacing", "0.25rem");
    design.theme.insert("--color-red-500", "red");
    for utility in ["flex", "bg-left-bottom", "decoration-clone", "text-start"] {
        design.static_utilities.insert(utility);
    }
    for utility in ["p", "ms", "ml", "block", "inline", "size", "scale-x", "scroll-p", "grid-cols", "bg"] {
        design.functional_utilities.insert(utility);
    }
    design
}

fn names_of(content: &str) -> Vec<&str> {
    content.split_whitespace().collect()
}

#[test]
fn no_unknown_classes_test() {
    let design = builtin_design();
    let rule = NoUnknownClasses::from_config(&NoUnknownClassesConfig { ignore: Vec::new(), detect_component_classes: false })
        .ok()
        .unwrap();
    let reported = |source: &str, quoted: &str| -> Vec<String> {
        let found = string_literal(source, quoted, &jsx_class_name()).unwrap();
        let unknown = unknown_in(&design, &names_of(&found.content));
        rule.check(&found.literal, &found.content, &design, &unknown)
            .iter()
            .map(|r| found.content[r.start..r.end].to_owned())
            .collect()
    };

    // pass
    assert!(reported(r#"<div className="flex group peer/name" />"#, r#""flex group peer/name""#).is_empty());
    assert!(reported(
        r#"<div className="scale-x-95 scroll-p-2 bg-left-bottom decoration-clone" />"#,
        r#""scale-x-95 scroll-p-2 bg-left-bottom decoration-clone""#
    )
    .is_empty());
    assert!(reported(
        r#"<div className="data-selected:flex nth-2:flex pointer-fine:flex" />"#,
        r#""data-selected:flex nth-2:flex pointer-fine:flex""#
    )
    .is_empty());

    // fail
    assert_eq!(reported(r#"<div className="flex typo-class" />"#, r#""flex typo-class""#), ["typo-class"]);
    assert_eq!(
        reported(r#"<div className="p-1.1 grid-cols-0 bg-red-500/50/25" />"#, r#""p-1.1 grid-cols-0 bg-red-500/50/25""#),
        ["p-1.1", "grid-cols-0", "bg-red-500/50/25"]
    );
}

#[test]
fn enforce_logical_properties_test() {
    let design = builtin_design();
    let rule = EnforceLogicalProperties::from_config(&EnforceLogicalPropertiesConfig { ignore: Vec::new() }).ok().unwrap();
    let reports_of = |found: &Found| {
        let candidates = logical_candidates(&found.literal, &found.content);
        let names = candidates.iter().map(String::as_str).collect::<Vec<_>>();
        let unknown = unknown_in(&design, &names);
        rule.check(&found.literal, &found.content, &unknown)
    };

    // pass
    let source = r#"<div className="ms-2 text-start" />"#;
    let found = string_literal(source, r#""ms-2 text-start""#, &jsx_class_name()).unwrap();
    assert!(reports_of(&found).is_empty());

    // fail, and fix
    let source = r#"<div className="ml-2 size-4" />"#;
    let found = string_literal(source, r#""ml-2 size-4""#, &jsx_class_name()).unwrap();
    let reports = reports_of(&found);
    assert_eq!(reports.len(), 2);
    assert!(!reports[0].plural);
    assert!(reports[1].plural);
    let edits = reports.iter().map(|r| (r.start, r.end, r.replacement.clone())).collect();
    assert_eq!(apply(source, &found, edits), r#"<div className="ms-2 block-4 inline-4" />"#);
}

#[test]
fn enforce_canonical_classes_test() {
    let rule = EnforceCanonicalClasses::from_config(&EnforceCanonicalClassesConfig::default()).ok().unwrap();
    assert!(rule.collapse && rule.logical);
    // The design system answers each class with itself, but `[display:flex]` with `flex`.
    let suggestions_for = |names: Vec<String>| -> Vec<(String, CanonicalClass)> {
        names
            .into_iter()
            .map(|class| {
                let output = if class == "[display:flex]" { "flex".to_owned() } else { class.clone() };
                (class.clone(), CanonicalClass { input: vec![class], output })
            })
            .collect()
    };

    // pass
    let source = r#"<div className="flex" />"#;
    let found = string_literal(source, r#""flex""#, &jsx_class_name()).unwrap();
    let suggestions = suggestions_for(rule.query_names(&found.literal, &found.content));
    assert!(rule.check(&found.literal, &found.content, &suggestions).is_empty());

    // fail, and fix
    let source = r#"<div className="[display:flex]" />"#;
    let found = string_literal(source, r#""[display:flex]""#, &jsx_class_name()).unwrap();
    let suggestions = suggestions_for(rule.query_names(&found.literal, &found.content));
    let reports = rule.check(&found.literal, &found.content, &suggestions);
    assert_eq!(reports.len(), 1);
    assert_eq!(reports[0].message, r#"The class: "[display:flex]" can be simplified to "flex"."#);
    let edits = reports.iter().map(|r| (r.start, r.end, r.replacement.clone())).collect();
    assert_eq!(apply(source, &found, edits), r#"<div className="flex" />"#);
}

#[test]
fn canonical_query_names_are_sorted_and_unique() {
    let rule = EnforceCanonicalClasses::from_config(&EnforceCanonicalClassesConfig {
        collapse: false,
        logical: false,
        ignore: vec!["^ignored".to_owned()],
    })
    .ok()
    .unwrap();
    let source = r#"<div className="p-2 flex ignored-1 flex b-1" />"#;
    let found = string_literal(source, r#""p-2 flex ignored-1 flex b-1""#, &jsx_class_name()).unwrap();
    assert_eq!(rule.query_names(&found.literal, &found.content), ["b-1", "flex", "p-2"]);
    let suggestions = vec![(
        "p-2".to_owned(),
        CanonicalClass { input: vec!["p-2".to_owned(), "b-1".to_owned()], output: "p-3".to_owned() },
    )];
    let reports = rule.check(&found.literal, &found.content, &suggestions);
    assert_eq!(reports.len(), 1);
    assert_eq!(reports[0].message, r#"The classes: "p-2, b-1" can be simplified to "p-3"."#);
    assert_eq!(reports[0].replacement, "p-3");
}

fn wrap_with(rule: EnforceConsistentLineWrapping, source: &str, quoted: &str) -> Option<String> {
    let found = string_literal(source, quoted, &jsx_class_name()).unwrap();
    let node_span = find(source, quoted, 0);
    let line_start = source[..found.offset].rfind('\n').map_or(0, |index| index + 1);
    let line_before = &source[line_start..found.offset];
    let wrap_node = WrapNode::String { source: quoted, in_jsx: true };
    let report = rule.check(&found.literal, &found.content, line_before, &wrap_node)?;
    Some(match report.target {
        WrapTarget::Content => apply(source, &found, vec![(0, found.content.len(), report.replacement)]),
        WrapTarget::Node => format!("{}{}{}", &source[..node_span.start as usize], report.replacement, &source[node_span.end as usize..]),
    })
}

#[test]
fn wrapped_lines_respect_the_limits() {
    let mut config = EnforceConsistentLineWrappingConfig::new();
    config.classes_per_line = 2;
    let rule = EnforceConsistentLineWrapping { config };
    let source = r#"<div className="aa bb cc dd ee" />"#;
    assert_eq!(
        wrap_with(rule, source, r#""aa bb cc dd ee""#).as_deref(),
        Some("<div className={`\n  aa bb\n  cc dd\n  ee\n`} />")
    );
    let mut config = EnforceConsistentLineWrappingConfig::new();
    config.print_width = 12;
    let rule = EnforceConsistentLineWrapping { config };
    let source = r#"<div className="aa bb cc dd ee very-long-class" />"#;
    assert_eq!(
        wrap_with(rule, source, r#""aa bb cc dd ee very-long-class""#).as_deref(),
        Some("<div className={`\n  aa bb cc\n  dd ee\n  very-long-class\n`} />")
    );
}

/// The rules of each class of `content`, as the design system compiles them.
fn compiled_in(design: &DesignSystem, names: &[&str]) -> Vec<Vec<oxc_tailwindcss::compile::CompiledRule>> {
    names
        .iter()
        .map(|name| {
            let candidates = design.parse_candidate(name);
            let all = candidates.iter().map(facts).collect::<Vec<_>>();
            design.compile_candidates(&candidates, &all)
        })
        .collect()
}

/// A design system that declares the utilities the conflict test uses.
fn conflict_design() -> DesignSystem {
    let mut design = DesignSystem::new(1, Vec::new());
    design.theme.insert("--spacing", "0.25rem");
    design.theme.insert("--color-red-500", "red");
    design.theme.insert("--text-sm", "0.875rem");
    design.register_utilities(
        &vec![],
        &vec!["p", "text", "scale-x", "scale-y", "brightness", "contrast", "border", "scroll-p", "scroll-px", "placeholder"],
        &vec![],
    );
    design
}

#[test]
fn no_conflicting_classes_test() {
    let design = conflict_design();
    let reported = |source: &str| -> usize {
        let start = source.find('"').unwrap();
        let end = source[start + 1..].find('"').unwrap() + start + 2;
        let found = string_literal(source, &source[start..end], &jsx_class_name()).unwrap();
        let names = names_of(&found.content);
        let compiled = compiled_in(&design, &names);
        let conflicts = conflicts_between(&names, &compiled);
        NoConflictingClasses.check(&found.literal, &found.content, Some(&conflicts)).len()
    };
    // pass
    assert_eq!(reported(r#"<div className="p-2 text-sm" />"#), 0);
    assert_eq!(reported(r#"<div className="scale-x-90 scale-y-90 brightness-75 contrast-75" />"#), 0);
    assert_eq!(reported(r#"<div className="border-2 border-red-500 scroll-p-2 scroll-px-2" />"#), 0);
    // fail
    assert!(reported(r#"<div className="p-2 p-4" />"#) > 0);
    assert!(reported(r#"<div className="scale-x-90 scale-x-95" />"#) > 0);
    assert!(reported(r#"<div className="brightness-75 brightness-100" />"#) > 0);
    assert!(reported(r#"<div className="placeholder-red-500 placeholder-red-500/50" />"#) > 0);
    assert!(reported(r#"<div className="scroll-p-2 scroll-p-4" />"#) > 0);
}

#[test]
fn enforce_shorthand_classes_test() {
    let known: Vec<String> = Vec::new();
    let fixed = |source: &str| -> Option<String> {
        let start = source.find('"').unwrap();
        let end = source[start + 1..].find('"').unwrap() + start + 2;
        let found = string_literal(source, &source[start..end], &jsx_class_name()).unwrap();
        let reports = EnforceShorthandClasses.check(&found.literal, &found.content, Some(&known));
        if reports.is_empty() {
            return None;
        }
        let mut edits = Vec::new();
        for report in reports {
            edits.push((report.start, report.end, report.replacement));
            for (from, to) in report.removals {
                edits.push((from, to, String::new()));
            }
        }
        Some(apply(source, &found, edits))
    };
    // pass
    assert_eq!(fixed(r#"<div className="size-4 truncate" />"#), None);
    // fail, with its fix
    assert_eq!(fixed(r#"<div className="w-4 h-4" />"#).as_deref(), Some(r#"<div className="size-4" />"#));
}

#[test]
fn registered_utilities_take_negative_spellings() {
    let mut design = DesignSystem::new(1, Vec::new());
    assert!(!design.has_static_utility("flex"));
    design.register_utilities(&vec!["flex"], &vec!["p"], &vec!["mt"]);
    assert!(design.has_static_utility("flex"));
    assert!(design.has_functional_utility("p"));
    assert!(!design.has_functional_utility("-p"));
    assert!(design.has_functional_utility("mt"));
    assert!(design.has_functional_utility("-mt"));
}

#[test]
fn class_offsets_count_bytes() {
    let literal = TailwindLiteral { span: span(10, 19), keep_leading: false, keep_trailing: true };
    let content = "é a ü-b";
    let classes = tailwind_classes(&literal, content);
    let found: Vec<(&str, usize, usize, u32, u32, bool)> =
        classes.iter().map(|c| (c.name, c.start, c.end, c.span.start, c.span.end, c.sticky)).collect();
    assert_eq!(
        found,
        vec![("é", 0, 2, 10, 12, false), ("a", 3, 4, 13, 14, false), ("ü-b", 5, 9, 15, 19, true)]
    );
    for c in &classes {
        assert_eq!(&content[c.start..c.end], c.name);
    }
    let names: Vec<&str> = classes.iter().map(|c| c.name).collect();
    assert_eq!(names, content.split_ascii_whitespace().collect::<Vec<_>>());
}

#[test]
fn lint_reports_after_non_ascii_classes_count_bytes() {
    let literal = TailwindLiteral { span: span(0, 13), keep_leading: false, keep_trailing: false };
    let content = "é flex  flex";
    let duplicates = NoDuplicateClasses.check(&literal, content);
    assert_eq!(duplicates.len(), 1);
    assert_eq!((duplicates[0].start, duplicates[0].end), (9, 13));
    assert_eq!((duplicates[0].removal_start, duplicates[0].removal_end), (7, 13));
    assert_eq!(&content[duplicates[0].start..duplicates[0].end], "flex");

    let fixes = NoUnnecessaryWhitespace::new().check(&literal, content);
    let edits: Vec<(usize, usize, String)> = fixes.into_iter().map(|f| (f.start, f.end, f.replacement)).collect();
    assert_eq!(edits, vec![(7, 9, " ".to_owned())]);

    let important = EnforceConsistentImportantPosition::new().check(&literal, "ä !flex");
    assert_eq!(important.len(), 1);
    assert_eq!((important[0].start, important[0].end, important[0].replacement.as_str()), (3, 8, "flex!"));
}
