//! The canonical spelling of a candidate's variants and utility. An arbitrary variant that names
//! a built-in one becomes it, and simple `data`, `supports` and `aria` values become names. An
//! arbitrary property that Tailwind spells as a utility becomes that utility, and an arbitrary
//! value with a named equivalent becomes the name. Which name a number stands for (a pixel width,
//! a percentage, a spacing step, a theme value) is asked of the caller: the queries are computed
//! here, and the answers decide.

use vstd::prelude::*;
use crate::candidate::{
    copy_modifier, copy_variant, kind_model, opt_candidate_value, opt_modifier, opt_text,
    spec_parse_variant, variant_model, ArbitraryValue, Candidate, CandidateKind,
    CandidateKindModel, CandidateValue, CandidateValueModel, Modifier, ModifierModel, NamedValue, Variant,
    VariantKind, VariantModel, VariantValue, VariantValueModel,
};
use crate::canonical::{
    canonicalize_deprecated, spec_canonicalize_deprecated, before_suffix, canonical_arbitrary_variant, is_simple_variant_value, spec_canonical_arbitrary_variant,
    spec_is_simple_variant_value, canonical_grid_track_count, concat2, concat3, is_css_dimension, is_spacing_utility, legacy_theme_variable,
    negate_value, negated_variable, property_utility, spec_canonical_grid_track_count, spec_is_css_dimension,
    spec_is_spacing_utility, spec_legacy_theme_variable, spec_negate_value, spec_negated_variable,
    spec_property_utility, spec_split_once, spec_static_equivalent, split_once, static_equivalent,
    strip_prefix_or_self, without_prefix,
};
use crate::collections::text_map_contents;
use crate::design_system::DesignSystem;
use crate::numbers::{parse_u32, parse_unsigned_spec};
use crate::text::{is_prefix, starts_with, str_eq, strip_suffix, trim, trim_ws};

verus! {

/// The values on which a canonicalization asks its numeric questions.
pub struct NumericQueries {
    /// The arbitrary value, rewritten: asked for its pixel width, its percentage and its
    /// legacy spacing step.
    pub value: String,
    /// The two sides of an `aspect` ratio, each asked whether it is a fraction part.
    pub fraction: Option<(String, String)>,
    /// The magnitude of a negative spacing value, asked for its spacing step.
    pub magnitude: Option<String>,
    /// The positive root and value asked for a theme name; the value is also asked for its
    /// spacing step.
    pub theme_root: String,
    pub theme_value: String,
}

/// The answers to the numeric questions.
pub struct NumericAnswers {
    /// Whether both sides of the ratio are fraction parts.
    pub fraction_parts_valid: bool,
    /// The bare pixel width the value stands for.
    pub pixel: Option<String>,
    /// The bare percentage the value stands for.
    pub percentage: Option<String>,
    /// The spacing step of a legacy spacing value.
    pub legacy_spacing: Option<String>,
    /// The spacing step of the negative magnitude.
    pub magnitude_step: Option<String>,
    /// The theme name of the positive value.
    pub theme_name: Option<String>,
    /// The spacing step of the positive value.
    pub value_step: Option<String>,
}

/// The model of the queries.
pub struct NumericQueriesModel {
    pub value: Seq<char>,
    pub fraction: Option<(Seq<char>, Seq<char>)>,
    pub magnitude: Option<Seq<char>>,
    pub theme_root: Seq<char>,
    pub theme_value: Seq<char>,
}

/// The model of the answers.
pub struct NumericAnswersModel {
    pub fraction_parts_valid: bool,
    pub pixel: Option<Seq<char>>,
    pub percentage: Option<Seq<char>>,
    pub legacy_spacing: Option<Seq<char>>,
    pub magnitude_step: Option<Seq<char>>,
    pub theme_name: Option<Seq<char>>,
    pub value_step: Option<Seq<char>>,
}

pub open spec fn opt_text_pair(o: Option<(String, String)>) -> Option<(Seq<char>, Seq<char>)> {
    match o {
        Some((a, b)) => Some((a@, b@)),
        None => None,
    }
}

impl View for NumericQueries {
    type V = NumericQueriesModel;

    open spec fn view(&self) -> NumericQueriesModel {
        NumericQueriesModel {
            value: self.value@,
            fraction: opt_text_pair(self.fraction),
            magnitude: opt_text(self.magnitude),
            theme_root: self.theme_root@,
            theme_value: self.theme_value@,
        }
    }
}

impl View for NumericAnswers {
    type V = NumericAnswersModel;

    open spec fn view(&self) -> NumericAnswersModel {
        NumericAnswersModel {
            fraction_parts_valid: self.fraction_parts_valid,
            pixel: opt_text(self.pixel),
            percentage: opt_text(self.percentage),
            legacy_spacing: opt_text(self.legacy_spacing),
            magnitude_step: opt_text(self.magnitude_step),
            theme_name: opt_text(self.theme_name),
            value_step: opt_text(self.value_step),
        }
    }
}

pub open spec fn opt_queries(o: Option<NumericQueries>) -> Option<NumericQueriesModel> {
    match o {
        Some(q) => Some(q@),
        None => None,
    }
}

/// The kind as a utility: a static utility for an arbitrary property that spells one out, a
/// functional utility with the trimmed value for an arbitrary property that one sets, the kind
/// itself otherwise.
pub open spec fn spec_utility_form(kind: CandidateKindModel) -> CandidateKindModel {
    match kind {
        CandidateKindModel::Arbitrary { property, value, modifier } => {
            let trimmed = trim_ws(value);
            match spec_static_equivalent(property, trimmed) {
                Some(root) => CandidateKindModel::Static { root },
                None => match spec_property_utility(property) {
                    Some(root) => CandidateKindModel::Functional {
                        root,
                        value: Some(CandidateValueModel::Arbitrary { data_type: None, value: trimmed }),
                        modifier,
                    },
                    None => kind,
                },
            }
        },
        _ => kind,
    }
}

/// The arbitrary value of the utility form, the one that is rewritten before the rest.
pub open spec fn spec_rewrite_input(kind: CandidateKindModel) -> Option<Seq<char>> {
    match spec_utility_form(kind) {
        CandidateKindModel::Functional { value: Some(CandidateValueModel::Arbitrary { value, .. }), .. } => Some(value),
        _ => None,
    }
}

/// `value` with the text of an arbitrary value replaced by `rewritten`.
pub open spec fn with_rewritten(value: Option<CandidateValueModel>, rewritten: Seq<char>) -> Option<CandidateValueModel> {
    match value {
        Some(CandidateValueModel::Arbitrary { data_type, .. }) => Some(CandidateValueModel::Arbitrary { data_type, value: rewritten }),
        _ => value,
    }
}

/// A `bg` utility with an arbitrary value moved to `bg-position` or `bg-size` by its data type,
/// or to `bg-position` when the untyped value is a dimension.
pub open spec fn spec_background_form(root: Seq<char>, value: Option<CandidateValueModel>) -> (Seq<char>, Option<CandidateValueModel>) {
    if root == "bg"@ {
        match value {
            Some(CandidateValueModel::Arbitrary { data_type, value: text }) => {
                if data_type == Some("position"@) {
                    ("bg-position"@, Some(CandidateValueModel::Arbitrary { data_type: None, value: text }))
                } else if data_type == Some("size"@) {
                    ("bg-size"@, Some(CandidateValueModel::Arbitrary { data_type: None, value: text }))
                } else if data_type is None && spec_is_css_dimension(text) {
                    ("bg-position"@, value)
                } else {
                    (root, value)
                }
            },
            _ => (root, value),
        }
    } else {
        (root, value)
    }
}

/// The root and text of the arbitrary value that the numeric questions start from, with its
/// data type: the utility form's, rewritten and moved by `spec_background_form`.
pub open spec fn spec_arbitrary_stage(kind: CandidateKindModel, rewritten: Seq<char>) -> Option<(Seq<char>, Option<Seq<char>>, Seq<char>)> {
    match spec_utility_form(kind) {
        CandidateKindModel::Functional { root, value, .. } => {
            let staged = spec_background_form(root, with_rewritten(value, rewritten));
            match staged.1 {
                Some(CandidateValueModel::Arbitrary { data_type, value: text }) => Some((staged.0, data_type, text)),
                _ => None,
            }
        },
        _ => None,
    }
}

/// A negated custom property turned around: `m-[calc(var(--x)*-1)]` is `-m-[var(--x)]`, and
/// `-m-[calc(var(--x)*-1)]` is `m-[var(--x)]`.
pub open spec fn spec_negation_form(root: Seq<char>, value: Seq<char>) -> (Seq<char>, Seq<char>) {
    match spec_negated_variable(value) {
        Some(variable) => (
            if is_prefix("-"@, root) { without_prefix(root, "-"@) } else { "-"@ + root },
            "var("@ + variable + ")"@,
        ),
        None => (root, value),
    }
}

/// The magnitude of a negative spacing value whose spacing step is asked: the value without
/// its own `-`, for a negative root of the spacing scale whose value is not a variable.
pub open spec fn spec_negative_magnitude(root: Seq<char>, value: Seq<char>) -> Option<Seq<char>> {
    if is_prefix("-"@, root) && !is_prefix("var("@, value) && spec_is_spacing_utility(without_prefix(root, "-"@)) {
        Some(without_prefix(value, "-"@))
    } else {
        None
    }
}

/// The positive root with the value negated in its place, and a legacy `theme(..)` value as
/// the custom property it names.
pub open spec fn spec_positive_form(design: DesignSystem, root: Seq<char>, value: Seq<char>) -> (Seq<char>, Seq<char>) {
    let signed = if is_prefix("-"@, root) {
        (without_prefix(root, "-"@), spec_negate_value(value))
    } else {
        (root, value)
    };
    match spec_legacy_theme_variable(design, signed.1) {
        Some(variable) => (signed.0, "var("@ + variable + ")"@),
        None => signed,
    }
}

/// The questions that canonicalizing `kind` asks, when its utility form has an arbitrary value.
pub open spec fn spec_numeric_queries(design: DesignSystem, kind: CandidateKindModel, rewritten: Seq<char>) -> Option<NumericQueriesModel> {
    match spec_arbitrary_stage(kind, rewritten) {
        Some((root, _data_type, value)) => {
            let negation = spec_negation_form(root, value);
            let positive = spec_positive_form(design, negation.0, negation.1);
            Some(NumericQueriesModel {
                value,
                fraction: if root == "aspect"@ { spec_split_once(value, '/') } else { None },
                magnitude: spec_negative_magnitude(negation.0, negation.1),
                theme_root: positive.0,
                theme_value: positive.1,
            })
        },
        None => None,
    }
}

/// A functional utility with a named value.
pub open spec fn named_kind(root: Seq<char>, value: Seq<char>, modifier: Option<ModifierModel>) -> CandidateKindModel {
    CandidateKindModel::Functional { root, value: Some(CandidateValueModel::Named { value, fraction: None }), modifier }
}

/// A functional utility with an arbitrary value.
pub open spec fn arbitrary_kind(root: Seq<char>, data_type: Option<Seq<char>>, value: Seq<char>, modifier: Option<ModifierModel>) -> CandidateKindModel {
    CandidateKindModel::Functional { root, value: Some(CandidateValueModel::Arbitrary { data_type, value }), modifier }
}

/// The roots whose bare values are pixel widths.
pub open spec fn is_width_root(root: Seq<char>) -> bool {
    root == "border"@ || root == "border-x"@ || root == "border-y"@ || root == "border-t"@
        || root == "border-r"@ || root == "border-b"@ || root == "border-l"@ || root == "divide-x"@
        || root == "divide-y"@ || root == "outline"@ || root == "ring"@ || root == "decoration"@
}

/// The roots whose bare values are gradient stop positions.
pub open spec fn is_stop_root(root: Seq<char>) -> bool {
    root == "from"@ || root == "via"@ || root == "to"@
}

/// The roots of grid templates.
pub open spec fn is_grid_root(root: Seq<char>) -> bool {
    root == "grid-cols"@ || root == "grid-rows"@
}

/// The roots whose bare values are integers.
pub open spec fn is_track_root(root: Seq<char>) -> bool {
    root == "col"@ || root == "row"@ || is_grid_root(root)
}

/// An arbitrary value that no bare value replaced: a negated variable turned around, a negative
/// spacing value as its step, or the positive form as its theme name or spacing step, if it has
/// one.
pub open spec fn spec_canonical_arbitrary(
    design: DesignSystem,
    root: Seq<char>,
    data_type: Option<Seq<char>>,
    value: Seq<char>,
    modifier: Option<ModifierModel>,
    answers: NumericAnswersModel,
) -> CandidateKindModel {
    let negation = spec_negation_form(root, value);
    if is_prefix("-"@, negation.0) && is_prefix("var("@, negation.1) {
        arbitrary_kind(negation.0, data_type, negation.1, modifier)
    } else if spec_negative_magnitude(negation.0, negation.1) is Some && answers.magnitude_step is Some {
        let step_root = if is_prefix("-"@, negation.1) { without_prefix(negation.0, "-"@) } else { negation.0 };
        named_kind(step_root, answers.magnitude_step->0, modifier)
    } else {
        let positive = spec_positive_form(design, negation.0, negation.1);
        match answers.theme_name {
            Some(name) => named_kind(positive.0, name, modifier),
            None => match answers.value_step {
                Some(step) if spec_is_spacing_utility(positive.0) => named_kind(positive.0, step, modifier),
                _ => arbitrary_kind(positive.0, data_type, positive.1, modifier),
            },
        }
    }
}

/// A functional utility in canonical form: an arbitrary value as a ratio, a track count, an
/// integer, a pixel width, a percentage or a legacy spacing step where its root takes one, and
/// as `spec_canonical_arbitrary` says otherwise.
pub open spec fn spec_canonical_value(
    design: DesignSystem,
    root: Seq<char>,
    value: Option<CandidateValueModel>,
    modifier: Option<ModifierModel>,
    answers: NumericAnswersModel,
) -> CandidateKindModel {
    match value {
        Some(CandidateValueModel::Arbitrary { data_type, value: text }) => {
            let ratio = spec_split_once(text, '/');
            if root == "aspect"@ && ratio is Some && answers.fraction_parts_valid {
                CandidateKindModel::Functional {
                    root,
                    value: Some(CandidateValueModel::Named { value: (ratio->0).0, fraction: Some(text) }),
                    modifier: Some(ModifierModel::Named((ratio->0).1)),
                }
            } else if is_grid_root(root) && spec_canonical_grid_track_count(text) is Some {
                named_kind(root, spec_canonical_grid_track_count(text)->0, modifier)
            } else if is_track_root(root) && parse_unsigned_spec(text, u32::MAX as int) is Some {
                named_kind(root, text, modifier)
            } else if is_width_root(root) && answers.pixel is Some {
                named_kind(root, answers.pixel->0, modifier)
            } else if is_stop_root(root) && answers.percentage is Some {
                named_kind(root, answers.percentage->0, modifier)
            } else if spec_is_spacing_utility(root) && text_map_contents(design.theme).contains_key("--spacing"@)
                && answers.legacy_spacing is Some {
                named_kind(root, answers.legacy_spacing->0, modifier)
            } else {
                spec_canonical_arbitrary(design, root, data_type, text, modifier, answers)
            }
        },
        _ => CandidateKindModel::Functional { root, value, modifier },
    }
}

/// The canonical form of `kind`, its modifier normalized to `normalized` and its arbitrary value
/// rewritten to `rewritten`, as the answers decide.
pub open spec fn spec_canonical_kind(
    design: DesignSystem,
    kind: CandidateKindModel,
    normalized: Option<ModifierModel>,
    rewritten: Seq<char>,
    answers: NumericAnswersModel,
) -> CandidateKindModel {
    match spec_utility_form(kind) {
        CandidateKindModel::Functional { root, value, .. } => {
            let staged = spec_background_form(root, with_rewritten(value, rewritten));
            spec_canonical_value(design, staged.0, staged.1, normalized, answers)
        },
        form => form,
    }
}

fn copy_text(o: &Option<String>) -> (r: Option<String>)
    ensures
        opt_text(r) == opt_text(*o),
{
    match o {
        Some(t) => Some(t.clone()),
        None => None,
    }
}

fn copy_value(v: &Option<CandidateValue>) -> (r: Option<CandidateValue>)
    ensures
        opt_candidate_value(r) == opt_candidate_value(*v),
{
    match v {
        Some(CandidateValue::Arbitrary(a)) => Some(CandidateValue::Arbitrary(ArbitraryValue { data_type: copy_text(&a.data_type), value: a.value.clone() })),
        Some(CandidateValue::Named(n)) => Some(CandidateValue::Named(NamedValue { value: n.value.clone(), fraction: copy_text(&n.fraction) })),
        None => None,
    }
}

fn utility_form(kind: &CandidateKind) -> (r: CandidateKind)
    ensures
        kind_model(r) == spec_utility_form(kind_model(*kind)),
{
    match kind {
        CandidateKind::Arbitrary { property, value, modifier } => {
            let trimmed = trim(value.as_str());
            match static_equivalent(property.as_str(), trimmed) {
                Some(root) => CandidateKind::Static { root: root.to_owned() },
                None => match property_utility(property.as_str()) {
                    Some(root) => CandidateKind::Functional {
                        root: root.to_owned(),
                        value: Some(CandidateValue::Arbitrary(ArbitraryValue { data_type: None, value: trimmed.to_owned() })),
                        modifier: copy_modifier(modifier),
                    },
                    None => CandidateKind::Arbitrary { property: property.clone(), value: value.clone(), modifier: copy_modifier(modifier) },
                },
            }
        },
        CandidateKind::Static { root } => CandidateKind::Static { root: root.clone() },
        CandidateKind::Functional { root, value, modifier } => {
            CandidateKind::Functional { root: root.clone(), value: copy_value(value), modifier: copy_modifier(modifier) }
        },
    }
}

/// The arbitrary value that is rewritten before the rest of the canonicalization, if the
/// utility form of `kind` has one.
pub fn rewrite_input(kind: &CandidateKind) -> (r: Option<String>)
    ensures
        opt_text(r) == spec_rewrite_input(kind_model(*kind)),
{
    match utility_form(kind) {
        CandidateKind::Functional { value: Some(CandidateValue::Arbitrary(a)), .. } => Some(a.value),
        _ => None,
    }
}

fn rewritten_value(value: Option<CandidateValue>, rewritten: &str) -> (r: Option<CandidateValue>)
    ensures
        opt_candidate_value(r) == with_rewritten(opt_candidate_value(value), rewritten@),
{
    match value {
        Some(CandidateValue::Arbitrary(a)) => Some(CandidateValue::Arbitrary(ArbitraryValue { data_type: a.data_type, value: rewritten.to_owned() })),
        other => other,
    }
}

fn is_text(o: &Option<String>, word: &str) -> (r: bool)
    ensures
        r == (opt_text(*o) == Some(word@)),
{
    match o {
        Some(t) => str_eq(t.as_str(), word),
        None => false,
    }
}

fn background_form(root: String, value: Option<CandidateValue>) -> (r: (String, Option<CandidateValue>))
    ensures
        (r.0@, opt_candidate_value(r.1)) == spec_background_form(root@, opt_candidate_value(value)),
{
    if !str_eq(root.as_str(), "bg") {
        return (root, value);
    }
    match value {
        Some(CandidateValue::Arbitrary(a)) => {
            if is_text(&a.data_type, "position") {
                ("bg-position".to_owned(), Some(CandidateValue::Arbitrary(ArbitraryValue { data_type: None, value: a.value })))
            } else if is_text(&a.data_type, "size") {
                ("bg-size".to_owned(), Some(CandidateValue::Arbitrary(ArbitraryValue { data_type: None, value: a.value })))
            } else if a.data_type.is_none() && is_css_dimension(a.value.as_str()) {
                ("bg-position".to_owned(), Some(CandidateValue::Arbitrary(a)))
            } else {
                (root, Some(CandidateValue::Arbitrary(a)))
            }
        },
        other => (root, other),
    }
}

fn arbitrary_stage(kind: &CandidateKind, rewritten: &str) -> (r: Option<(String, Option<String>, String)>)
    ensures
        match r {
            Some((root, data_type, value)) => spec_arbitrary_stage(kind_model(*kind), rewritten@) == Some((root@, opt_text(data_type), value@)),
            None => spec_arbitrary_stage(kind_model(*kind), rewritten@) is None,
        },
{
    match utility_form(kind) {
        CandidateKind::Functional { root, value, .. } => {
            let (staged_root, staged_value) = background_form(root, rewritten_value(value, rewritten));
            match staged_value {
                Some(CandidateValue::Arbitrary(a)) => Some((staged_root, a.data_type, a.value)),
                _ => None,
            }
        },
        _ => None,
    }
}

fn negation_form(root: &str, value: &str) -> (r: (String, String))
    ensures
        (r.0@, r.1@) == spec_negation_form(root@, value@),
{
    match negated_variable(value) {
        Some(variable) => {
            let flipped = if starts_with(root, "-") {
                strip_prefix_or_self(root, "-").to_owned()
            } else {
                concat2("-", root)
            };
            (flipped, concat3("var(", variable, ")"))
        },
        None => (root.to_owned(), value.to_owned()),
    }
}

fn negative_magnitude(root: &str, value: &str) -> (r: Option<String>)
    ensures
        opt_text(r) == spec_negative_magnitude(root@, value@),
{
    if starts_with(root, "-") && !starts_with(value, "var(") && is_spacing_utility(strip_prefix_or_self(root, "-")) {
        Some(strip_prefix_or_self(value, "-").to_owned())
    } else {
        None
    }
}

fn positive_form(design: &DesignSystem, root: &str, value: &str) -> (r: (String, String))
    ensures
        (r.0@, r.1@) == spec_positive_form(*design, root@, value@),
{
    let (positive_root, signed_value) = if starts_with(root, "-") {
        (strip_prefix_or_self(root, "-").to_owned(), negate_value(value))
    } else {
        (root.to_owned(), value.to_owned())
    };
    match legacy_theme_variable(design, signed_value.as_str()) {
        Some(variable) => (positive_root, concat3("var(", variable.as_str(), ")")),
        None => (positive_root, signed_value),
    }
}

/// The numeric questions that canonicalizing `kind` asks, its arbitrary value rewritten to
/// `rewritten`: `None` when its utility form has no arbitrary value, and nothing is asked.
pub fn numeric_queries(design: &DesignSystem, kind: &CandidateKind, rewritten: &str) -> (r: Option<NumericQueries>)
    ensures
        opt_queries(r) == spec_numeric_queries(*design, kind_model(*kind), rewritten@),
{
    match arbitrary_stage(kind, rewritten) {
        Some((root, _data_type, value)) => {
            let (negated_root, negated_value) = negation_form(root.as_str(), value.as_str());
            let (positive_root, positive_value) = positive_form(design, negated_root.as_str(), negated_value.as_str());
            let fraction = if str_eq(root.as_str(), "aspect") {
                match split_once(value.as_str(), '/') {
                    Some((left, right)) => Some((left.to_owned(), right.to_owned())),
                    None => None,
                }
            } else {
                None
            };
            let magnitude = negative_magnitude(negated_root.as_str(), negated_value.as_str());
            Some(NumericQueries { value, fraction, magnitude, theme_root: positive_root, theme_value: positive_value })
        },
        None => None,
    }
}

fn named(root: String, value: String, modifier: Option<Modifier>) -> (r: CandidateKind)
    ensures
        kind_model(r) == named_kind(root@, value@, opt_modifier(modifier)),
{
    CandidateKind::Functional { root, value: Some(CandidateValue::Named(NamedValue { value, fraction: None })), modifier }
}

fn arbitrary(root: String, data_type: Option<String>, value: String, modifier: Option<Modifier>) -> (r: CandidateKind)
    ensures
        kind_model(r) == arbitrary_kind(root@, opt_text(data_type), value@, opt_modifier(modifier)),
{
    CandidateKind::Functional { root, value: Some(CandidateValue::Arbitrary(ArbitraryValue { data_type, value })), modifier }
}

fn canonical_arbitrary(
    design: &DesignSystem,
    root: &str,
    data_type: Option<String>,
    value: &str,
    modifier: Option<Modifier>,
    answers: &NumericAnswers,
) -> (r: CandidateKind)
    ensures
        kind_model(r) == spec_canonical_arbitrary(*design, root@, opt_text(data_type), value@, opt_modifier(modifier), answers@),
{
    let (negated_root, negated_value) = negation_form(root, value);
    if starts_with(negated_root.as_str(), "-") && starts_with(negated_value.as_str(), "var(") {
        return arbitrary(negated_root, data_type, negated_value, modifier);
    }
    if negative_magnitude(negated_root.as_str(), negated_value.as_str()).is_some() {
        match &answers.magnitude_step {
            Some(step) => {
                let step_root = if starts_with(negated_value.as_str(), "-") {
                    strip_prefix_or_self(negated_root.as_str(), "-").to_owned()
                } else {
                    negated_root
                };
                return named(step_root, step.clone(), modifier);
            },
            None => {},
        }
    }
    let (positive_root, positive_value) = positive_form(design, negated_root.as_str(), negated_value.as_str());
    match &answers.theme_name {
        Some(name) => named(positive_root, name.clone(), modifier),
        None => match &answers.value_step {
            Some(step) => {
                if is_spacing_utility(positive_root.as_str()) {
                    named(positive_root, step.clone(), modifier)
                } else {
                    arbitrary(positive_root, data_type, positive_value, modifier)
                }
            },
            None => arbitrary(positive_root, data_type, positive_value, modifier),
        },
    }
}

fn width_root(root: &str) -> (r: bool)
    ensures
        r == is_width_root(root@),
{
    str_eq(root, "border") || str_eq(root, "border-x") || str_eq(root, "border-y") || str_eq(root, "border-t")
        || str_eq(root, "border-r") || str_eq(root, "border-b") || str_eq(root, "border-l") || str_eq(root, "divide-x")
        || str_eq(root, "divide-y") || str_eq(root, "outline") || str_eq(root, "ring") || str_eq(root, "decoration")
}

fn stop_root(root: &str) -> (r: bool)
    ensures
        r == is_stop_root(root@),
{
    str_eq(root, "from") || str_eq(root, "via") || str_eq(root, "to")
}

fn grid_root(root: &str) -> (r: bool)
    ensures
        r == is_grid_root(root@),
{
    str_eq(root, "grid-cols") || str_eq(root, "grid-rows")
}

fn canonical_value(
    design: &DesignSystem,
    root: String,
    value: Option<CandidateValue>,
    modifier: Option<Modifier>,
    answers: &NumericAnswers,
) -> (r: CandidateKind)
    ensures
        kind_model(r) == spec_canonical_value(*design, root@, opt_candidate_value(value), opt_modifier(modifier), answers@),
{
    let (data_type, text) = match value {
        Some(CandidateValue::Arbitrary(a)) => (a.data_type, a.value),
        other => return CandidateKind::Functional { root, value: other, modifier },
    };
    if str_eq(root.as_str(), "aspect") && answers.fraction_parts_valid {
        let ratio = match split_once(text.as_str(), '/') {
            Some((left, right)) => Some((left.to_owned(), right.to_owned())),
            None => None,
        };
        match ratio {
            Some((left, right)) => {
                return CandidateKind::Functional {
                    root,
                    value: Some(CandidateValue::Named(NamedValue { value: left, fraction: Some(text) })),
                    modifier: Some(Modifier::Named(right)),
                };
            },
            None => {},
        }
    }
    if grid_root(root.as_str()) {
        let count = match canonical_grid_track_count(text.as_str()) {
            Some(count) => Some(count.to_owned()),
            None => None,
        };
        match count {
            Some(count) => return named(root, count, modifier),
            None => {},
        }
    }
    if (str_eq(root.as_str(), "col") || str_eq(root.as_str(), "row") || grid_root(root.as_str()))
        && parse_u32(text.as_str()).is_some() {
        return named(root, text, modifier);
    }
    if width_root(root.as_str()) {
        match &answers.pixel {
            Some(pixel) => return named(root, pixel.clone(), modifier),
            None => {},
        }
    }
    if stop_root(root.as_str()) {
        match &answers.percentage {
            Some(percentage) => return named(root, percentage.clone(), modifier),
            None => {},
        }
    }
    if is_spacing_utility(root.as_str()) && design.theme_value("--spacing").is_some() {
        match &answers.legacy_spacing {
            Some(step) => return named(root, step.clone(), modifier),
            None => {},
        }
    }
    canonical_arbitrary(design, root.as_str(), data_type, text.as_str(), modifier, answers)
}

/// Puts the candidate's utility in canonical form: an arbitrary property that Tailwind spells
/// as a utility becomes that utility, and an arbitrary value with a bare, theme or spacing
/// equivalent becomes that name. `normalized` is the candidate's modifier normalized,
/// `rewritten` its arbitrary value (the one `rewrite_input` gives) rewritten, and `answers`
/// answer the questions of `numeric_queries`.
pub fn canonicalize_candidate_kind(
    design: &DesignSystem,
    candidate: &mut Candidate,
    normalized: Option<Modifier>,
    rewritten: &str,
    answers: &NumericAnswers,
)
    ensures
        kind_model(final(candidate).kind) == spec_canonical_kind(
            *design,
            kind_model(old(candidate).kind),
            opt_modifier(normalized),
            rewritten@,
            answers@,
        ),
        final(candidate).variants == old(candidate).variants,
        final(candidate).important == old(candidate).important,
        final(candidate).raw == old(candidate).raw,
{
    let kind = match utility_form(&candidate.kind) {
        CandidateKind::Functional { root, value, .. } => {
            let (staged_root, staged_value) = background_form(root, rewritten_value(value, rewritten));
            canonical_value(design, staged_root, staged_value, normalized, answers)
        },
        form => form,
    };
    candidate.kind = kind;
}

/// The arbitrary value of the innermost variant, the one that is rewritten before the rest: that
/// of a functional variant, through compound variants.
pub open spec fn spec_variant_rewrite_input(variant: VariantModel) -> Option<Seq<char>>
    decreases variant,
{
    match variant {
        VariantModel::Compound { variant: inner, .. } => spec_variant_rewrite_input(*inner),
        VariantModel::Functional { value: Some(VariantValueModel::Arbitrary(value)), .. } => Some(value),
        _ => None,
    }
}

/// The name that a simple arbitrary value of a `data`, `supports` or `aria` variant stands for:
/// the value itself, or for `aria`, the attribute of an `="true"` test.
pub open spec fn spec_variant_value_name(root: Seq<char>, value: Seq<char>) -> Option<Seq<char>> {
    if (root == "data"@ || root == "supports"@) && spec_is_simple_variant_value(value) {
        Some(value)
    } else if root == "aria"@ {
        match before_suffix(value, "=\"true\""@) {
            Some(name) => if spec_is_simple_variant_value(name) { Some(name) } else { None },
            None => None,
        }
    } else {
        None
    }
}

/// The canonical form of a variant, the arbitrary value of the innermost one rewritten to
/// `rewritten`: an arbitrary variant that names a variant of the design system becomes it, and
/// a functional variant's value becomes its name where `spec_variant_value_name` gives one.
pub open spec fn spec_canonical_variant(design: DesignSystem, variant: VariantModel, rewritten: Seq<char>) -> VariantModel
    decreases variant,
{
    match variant {
        VariantModel::Compound { root, variant: inner, modifier } => VariantModel::Compound {
            root,
            variant: Box::new(spec_canonical_variant(design, *inner, rewritten)),
            modifier,
        },
        VariantModel::Arbitrary { selector, .. } => match spec_canonical_arbitrary_variant(selector) {
            Some(canonical) => match spec_parse_variant(canonical, design) {
                Some(parsed) => parsed,
                None => variant,
            },
            None => variant,
        },
        VariantModel::Functional { root, value: Some(value), modifier } => {
            let value = match value {
                VariantValueModel::Arbitrary(_) => VariantValueModel::Arbitrary(rewritten),
                named => named,
            };
            let value = match value {
                VariantValueModel::Arbitrary(text) => match spec_variant_value_name(root, text) {
                    Some(name) => VariantValueModel::Named(name),
                    None => value,
                },
                named => named,
            };
            VariantModel::Functional { root, value: Some(value), modifier }
        },
        _ => variant,
    }
}

/// The arbitrary value of the innermost variant, which is rewritten before the rest of the
/// canonicalization, if it has one.
pub fn variant_rewrite_input(variant: &Variant) -> (r: Option<String>)
    ensures
        opt_text(r) == spec_variant_rewrite_input(variant_model(*variant)),
    decreases *variant,
{
    match &variant.kind {
        VariantKind::Compound { variant: inner, .. } => variant_rewrite_input(inner),
        VariantKind::Functional { value: Some(VariantValue::Arbitrary(value)), .. } => Some(value.clone()),
        _ => None,
    }
}

fn variant_value_name(root: &str, value: &str) -> (r: Option<String>)
    ensures
        opt_text(r) == spec_variant_value_name(root@, value@),
{
    if (str_eq(root, "data") || str_eq(root, "supports")) && is_simple_variant_value(value) {
        Some(value.to_owned())
    } else if str_eq(root, "aria") {
        match strip_suffix(value, "=\"true\"") {
            Some(name) => {
                assert(value@.subrange(0, value@.len() - "=\"true\""@.len()) =~= name@);
                if is_simple_variant_value(name) {
                    Some(name.to_owned())
                } else {
                    None
                }
            },
            None => None,
        }
    } else {
        None
    }
}

fn canonical_variant(design: &DesignSystem, variant: &Variant, rewritten: &str) -> (r: Variant)
    ensures
        variant_model(r) == spec_canonical_variant(*design, variant_model(*variant), rewritten@),
    decreases *variant,
{
    match &variant.kind {
        VariantKind::Compound { root, variant: inner, modifier } => {
            let canonical_inner = canonical_variant(design, inner, rewritten);
            Variant {
                kind: VariantKind::Compound { root: root.clone(), variant: Box::new(canonical_inner), modifier: copy_modifier(modifier) },
            }
        },
        VariantKind::Arbitrary { selector, .. } => {
            match canonical_arbitrary_variant(selector.as_str()) {
                Some(canonical) => match design.parse_variant(canonical.as_str()) {
                    Some(parsed) => parsed,
                    None => copy_variant(variant),
                },
                None => copy_variant(variant),
            }
        },
        VariantKind::Functional { root, value: Some(value), modifier } => {
            let value = match value {
                VariantValue::Arbitrary(_) => VariantValue::Arbitrary(rewritten.to_owned()),
                VariantValue::Named(name) => VariantValue::Named(name.clone()),
            };
            let value = match value {
                VariantValue::Arbitrary(text) => match variant_value_name(root.as_str(), text.as_str()) {
                    Some(name) => VariantValue::Named(name),
                    None => VariantValue::Arbitrary(text),
                },
                named => named,
            };
            Variant { kind: VariantKind::Functional { root: root.clone(), value: Some(value), modifier: copy_modifier(modifier) } }
        },
        _ => copy_variant(variant),
    }
}

/// Puts a variant in canonical form: an arbitrary variant that names a variant of the design
/// system becomes that variant, and a simple arbitrary `data`, `supports` or `aria` value
/// becomes a name. `rewritten` is the innermost arbitrary value (the one `variant_rewrite_input`
/// gives) rewritten.
pub fn canonicalize_variant(design: &DesignSystem, variant: &mut Variant, rewritten: &str)
    ensures
        variant_model(*final(variant)) == spec_canonical_variant(*design, variant_model(*old(variant)), rewritten@),
{
    let canonical = canonical_variant(design, variant, rewritten);
    *variant = canonical;
}

/// The spelling of a class that is settled before its parts are canonicalized: a deprecated
/// utility's replacement, else the class itself when the design system does not know it
/// (`known` says whether it does). `None` when the class is known and not deprecated, and its
/// variants and utility are to be canonicalized.
pub fn settled_spelling(design: &DesignSystem, class_name: &str, known: bool) -> (r: Option<String>)
    ensures
        opt_text(r) == match spec_canonicalize_deprecated(*design, class_name@) {
            Some(replacement) => Some(replacement),
            None => if known { None } else { Some(class_name@) },
        },
{
    match canonicalize_deprecated(design, class_name) {
        Some(replacement) => Some(replacement),
        None => if known { None } else { Some(class_name.to_owned()) },
    }
}

} // verus!
