//! Tailwind CSS v4 class-name primitives: splitting, candidate parsing and the text rules that
//! the class-string lints apply.

pub mod text;
pub mod segment;
pub mod variable_syntax;
pub mod classes;
pub mod rules;
pub mod variants;
pub mod collections;
pub mod design_system;
pub mod css;
pub mod config;
pub mod loader;
pub mod lint;
pub mod no_duplicate_classes;
pub mod no_unnecessary_whitespace;
pub mod class_rewrites;
pub mod enforce_consistent_line_wrapping;
pub mod enforce_consistent_variant_order;
pub mod enforce_consistent_class_order;
pub mod enforce_shorthand_classes;
pub mod shorthand_edges;
pub mod no_conflicting_classes;
pub mod candidate;
pub mod variant_order;
pub mod numbers;
pub mod canonical;
pub mod compile;
pub mod pattern;
pub mod no_restricted_classes;
pub mod no_unknown_classes;
pub mod enforce_logical_properties;
pub mod enforce_canonical_classes;
pub mod canonical_utility;
pub mod collapse;
pub mod theme_functions;
