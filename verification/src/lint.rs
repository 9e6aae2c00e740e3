//! Where class strings are: which string literals and template elements of a script hold
//! Tailwind classes, decided from the literal and the chain of syntax nodes around it.

use vstd::prelude::*;
use crate::text::{chars_of, str_eq};

verus! {

/// A range of source offsets.
#[derive(Clone, Copy, PartialEq, Eq, Structural)]
pub struct SourceSpan {
    pub start: u32,
    pub end: u32,
}

/// A source slice known to hold Tailwind classes. A template element that touches an
/// interpolation must keep the class at that edge: removing it could join a dynamic value and a
/// static class into a different class name.
#[derive(Clone, Copy, PartialEq, Eq, Structural)]
pub struct TailwindLiteral {
    pub span: SourceSpan,
    pub keep_leading: bool,
    pub keep_trailing: bool,
}

/// A string literal or a template element.
pub enum LiteralNode<'a> {
    /// A string literal: its span and its source text, quotes included.
    String { span: SourceSpan, source: &'a str },
    /// A template element: the span of its text and whether it is the template's last.
    Template { span: SourceSpan, tail: bool },
}

/// A syntax node around a literal, as far as the choice of class strings reads it.
pub enum Ancestor<'a> {
    /// A template literal, with the span of its first element, if any.
    TemplateLiteral { span: SourceSpan, first_quasi: Option<SourceSpan> },
    /// An object property, with the span of its key when the key is a string literal.
    ObjectProperty { span: SourceSpan, string_key: Option<SourceSpan> },
    /// A JSX attribute, with its name when the name is an identifier.
    JsxAttribute { name: Option<&'a str> },
    /// A call, with the callee's name when it has one.
    CallExpression { callee: Option<&'a str> },
    /// A tagged template, with the tag's name when it is an identifier or a static member.
    TaggedTemplate { tag: Option<&'a str> },
    /// A variable declarator, with its name when it binds an identifier.
    VariableDeclarator { binding: Option<&'a str> },
    /// A function, arrow function or class body: class strings do not reach past it.
    FunctionLike,
    /// The program itself.
    Program,
    /// Any other node.
    Other { span: SourceSpan },
}

/// The call helpers whose string arguments hold classes.
pub open spec fn is_default_callee(name: Seq<char>) -> bool {
    ||| name == "cc"@ ||| name == "clb"@ ||| name == "clsx"@ ||| name == "cn"@
    ||| name == "cnb"@ ||| name == "ctl"@ ||| name == "cva"@ ||| name == "cx"@
    ||| name == "dcnb"@ ||| name == "objstr"@ ||| name == "tv"@ ||| name == "tw"@
    ||| name == "twJoin"@ ||| name == "twMerge"@
}

/// The template tags whose templates hold classes.
pub open spec fn is_default_tag(name: Seq<char>) -> bool {
    name == "tw"@ || name == "twc"@ || name == "twx"@
}

/// The attribute names that hold classes.
pub open spec fn is_class_attribute(name: Seq<char>) -> bool {
    name == "class"@ || name == "className"@
}

/// The variable names whose string values hold classes.
pub open spec fn is_class_variable(name: Seq<char>) -> bool {
    ||| name == "class"@ ||| name == "classes"@ ||| name == "className"@
    ||| name == "classNames"@ ||| name == "style"@ ||| name == "styles"@
}

pub open spec fn name_matches(name: Option<&str>, accepted: spec_fn(Seq<char>) -> bool) -> bool {
    match name {
        Some(n) => accepted(n@),
        None => false,
    }
}

/// The outcome of walking the ancestors from index `i` on, the literal having reached the node
/// spanning `child` with the leading edge `lead` and the object-key status `key`.
pub open spec fn literal_walk(ancestors: Seq<Ancestor>, i: int, child: SourceSpan, span: SourceSpan, lead: bool, trail: bool, key: bool) -> Option<TailwindLiteral>
    decreases ancestors.len() - i,
{
    if i < 0 || i >= ancestors.len() {
        None
    } else {
        let literal = TailwindLiteral { span, keep_leading: lead, keep_trailing: trail };
        match ancestors[i] {
            Ancestor::TemplateLiteral { span: s, first_quasi } =>
                literal_walk(ancestors, i + 1, s, span, if first_quasi == Some(child) { false } else { lead }, trail, key),
            Ancestor::ObjectProperty { span: s, string_key } =>
                if string_key == Some(child) { literal_walk(ancestors, i + 1, s, span, lead, trail, true) } else { None },
            Ancestor::JsxAttribute { name } =>
                if !key && name_matches(name, |n: Seq<char>| is_class_attribute(n)) { Some(literal) } else { None },
            Ancestor::CallExpression { callee } =>
                if name_matches(callee, |n: Seq<char>| is_default_callee(n)) { Some(literal) } else { None },
            Ancestor::TaggedTemplate { tag } =>
                if !key && name_matches(tag, |n: Seq<char>| is_default_tag(n)) { Some(literal) } else { None },
            Ancestor::VariableDeclarator { binding } =>
                if !key && name_matches(binding, |n: Seq<char>| is_class_variable(n)) { Some(literal) } else { None },
            Ancestor::FunctionLike => None,
            Ancestor::Program => None,
            Ancestor::Other { span: s } => literal_walk(ancestors, i + 1, s, span, lead, trail, key),
        }
    }
}

/// Whether the source text of a string literal is quoted: at least two characters, the first a
/// quote and the last the same quote.
pub open spec fn is_quoted(source: Seq<char>) -> bool {
    source.len() >= 2 && (source[0] == '\'' || source[0] == '"') && source[source.len() - 1] == source[0]
}

/// The class literal that `node`, with the ancestors `ancestors` from the nearest outwards,
/// stands for, if it holds classes.
pub open spec fn spec_tailwind_literal(node: LiteralNode, ancestors: Seq<Ancestor>) -> Option<TailwindLiteral> {
    match node {
        LiteralNode::String { span, source } =>
            if is_quoted(source@) {
                literal_walk(ancestors, 0, span, SourceSpan { start: (span.start + 1) as u32, end: (span.end - 1) as u32 }, false, false, false)
            } else {
                None
            },
        LiteralNode::Template { span, tail } => literal_walk(ancestors, 0, span, span, true, !tail, false),
    }
}

/// Whether `a` is a call of a class helper.
pub open spec fn is_helper_call(a: Ancestor) -> bool {
    a matches Ancestor::CallExpression { callee } && name_matches(callee, |n: Seq<char>| is_default_callee(n))
}

proof fn lemma_key_walk(ancestors: Seq<Ancestor>, i: int, child: SourceSpan, span: SourceSpan)
    requires
        0 <= i,
    ensures
        literal_walk(ancestors, i, child, span, false, false, true) matches Some(l) ==> {
            &&& l == (TailwindLiteral { span, keep_leading: false, keep_trailing: false })
            &&& exists|k: int| i <= k < ancestors.len() && is_helper_call(#[trigger] ancestors[k])
        },
    decreases ancestors.len() - i,
{
    if i < ancestors.len() {
        match ancestors[i] {
            Ancestor::TemplateLiteral { span: s, first_quasi } => {
                lemma_key_walk(ancestors, i + 1, s, span);
            },
            Ancestor::ObjectProperty { span: s, string_key } => {
                lemma_key_walk(ancestors, i + 1, s, span);
            },
            Ancestor::Other { span: s } => {
                lemma_key_walk(ancestors, i + 1, s, span);
            },
            Ancestor::CallExpression { callee } => {
                if literal_walk(ancestors, i, child, span, false, false, true) is Some {
                    assert(is_helper_call(ancestors[i]));
                }
            },
            _ => {},
        }
    }
}

proof fn lemma_key_reaches_call(ancestors: Seq<Ancestor>, i: int, m: int, child: SourceSpan, span: SourceSpan)
    requires
        0 <= i <= m < ancestors.len(),
        forall|k: int| i <= k < m ==> (#[trigger] ancestors[k]) is Other,
        is_helper_call(ancestors[m]),
    ensures
        literal_walk(ancestors, i, child, span, false, false, true) == Some(TailwindLiteral { span, keep_leading: false, keep_trailing: false }),
    decreases m - i,
{
    if i < m {
        assert(ancestors[i] is Other);
        let s = ancestors[i]->Other_span;
        lemma_key_reaches_call(ancestors, i + 1, m, s, span);
    }
}

/// In an object, only a key holds classes: a string literal that is an object property's value
/// (not its key) is never a class string, and one that is its key is a class string only under
/// a class helper call further out, and then without its quotes and with no edge kept. A quoted
/// key whose object sits (through nodes of no other kind) in a class helper call's arguments is
/// a class string.
pub proof fn object_keys_hold_classes_only_under_helper_calls(
    span: SourceSpan,
    source: &str,
    property: SourceSpan,
    key: Option<SourceSpan>,
    outer: Seq<Ancestor>,
    call: int,
)
    ensures
        ({
            let node = LiteralNode::String { span, source };
            let ancestors = seq![Ancestor::ObjectProperty { span: property, string_key: key }] + outer;
            &&& key != Some(span) ==> spec_tailwind_literal(node, ancestors) is None
            &&& spec_tailwind_literal(node, ancestors) matches Some(l) ==> {
                &&& l == (TailwindLiteral {
                    span: SourceSpan { start: (span.start + 1) as u32, end: (span.end - 1) as u32 },
                    keep_leading: false,
                    keep_trailing: false,
                })
                &&& exists|k: int| 0 <= k < outer.len() && is_helper_call(#[trigger] outer[k])
            }
        }),
        key == Some(span) && is_quoted(source@) && 0 <= call < outer.len() && is_helper_call(outer[call])
            && (forall|k: int| 0 <= k < call ==> (#[trigger] outer[k]) is Other)
            ==> spec_tailwind_literal(LiteralNode::String { span, source }, seq![Ancestor::ObjectProperty { span: property, string_key: key }] + outer)
                == Some(TailwindLiteral {
                    span: SourceSpan { start: (span.start + 1) as u32, end: (span.end - 1) as u32 },
                    keep_leading: false,
                    keep_trailing: false,
                }),
{
    let ancestors = seq![Ancestor::ObjectProperty { span: property, string_key: key }] + outer;
    let inner = SourceSpan { start: (span.start + 1) as u32, end: (span.end - 1) as u32 };
    lemma_key_walk(ancestors, 1, property, inner);
    if literal_walk(ancestors, 1, property, inner, false, false, true) is Some {
        let k = choose|k: int| 1 <= k < ancestors.len() && is_helper_call(#[trigger] ancestors[k]);
        assert(outer[k - 1] == ancestors[k]);
    }
    if key == Some(span) && is_quoted(source@) && 0 <= call < outer.len() && is_helper_call(outer[call])
        && (forall|k: int| 0 <= k < call ==> (#[trigger] outer[k]) is Other) {
        assert forall|k: int| 1 <= k < call + 1 implies (#[trigger] ancestors[k]) is Other by {
            assert(ancestors[k] == outer[k - 1]);
        }
        assert(ancestors[call + 1] == outer[call]);
        lemma_key_reaches_call(ancestors, 1, call + 1, property, inner);
    }
}

/// Whether a node is well formed: a string literal's text fits its span.
pub open spec fn node_wf(node: LiteralNode) -> bool {
    match node {
        LiteralNode::String { span, source } => span.start + source@.len() <= span.end,
        LiteralNode::Template { span, tail } => true,
    }
}

fn is_default_callee_exec(name: &str) -> (r: bool)
    ensures
        r == is_default_callee(name@),
{
    str_eq(name, "cc") || str_eq(name, "clb") || str_eq(name, "clsx") || str_eq(name, "cn")
        || str_eq(name, "cnb") || str_eq(name, "ctl") || str_eq(name, "cva") || str_eq(name, "cx")
        || str_eq(name, "dcnb") || str_eq(name, "objstr") || str_eq(name, "tv") || str_eq(name, "tw")
        || str_eq(name, "twJoin") || str_eq(name, "twMerge")
}

fn is_default_tag_exec(name: &str) -> (r: bool)
    ensures
        r == is_default_tag(name@),
{
    str_eq(name, "tw") || str_eq(name, "twc") || str_eq(name, "twx")
}

fn is_class_attribute_exec(name: &str) -> (r: bool)
    ensures
        r == is_class_attribute(name@),
{
    str_eq(name, "class") || str_eq(name, "className")
}

fn is_class_variable_exec(name: &str) -> (r: bool)
    ensures
        r == is_class_variable(name@),
{
    str_eq(name, "class") || str_eq(name, "classes") || str_eq(name, "className")
        || str_eq(name, "classNames") || str_eq(name, "style") || str_eq(name, "styles")
}

/// The class literal that a string literal or template element stands for, given the syntax
/// nodes around it from the nearest outwards. A string literal counts without its quotes; a
/// template element keeps the class at each edge that touches an interpolation.
///
/// It counts inside a `class` or `className` JSX attribute, an argument of a class helper call
/// (`clsx`, `cn`, ...), a `tw`, `twc` or `twx` template, or a variable named like `className`;
/// in an object, only as a string key (and then only under a helper call). Nothing counts past a
/// function, an object value or another call.
pub fn tailwind_literal(node: &LiteralNode, ancestors: &[Ancestor]) -> (r: Option<TailwindLiteral>)
    requires
        node_wf(*node),
    ensures
        r == spec_tailwind_literal(*node, ancestors@),
{
    let (span, mut keep_leading, keep_trailing, mut child) = match node {
        LiteralNode::String { span, source } => {
            let chars = chars_of(source);
            let n = chars.len();
            if n < 2 || !(chars[0] == '\'' || chars[0] == '"') || chars[n - 1] != chars[0] {
                return None;
            }
            (SourceSpan { start: span.start + 1, end: span.end - 1 }, false, false, *span)
        },
        LiteralNode::Template { span, tail } => (*span, true, !*tail, *span),
    };
    let ghost start_lead = keep_leading;
    let ghost start_child = child;
    let mut is_object_key = false;
    let mut i: usize = 0;
    while i < ancestors.len()
        invariant
            i <= ancestors@.len(),
            spec_tailwind_literal(*node, ancestors@) == literal_walk(ancestors@, i as int, child, span, keep_leading, keep_trailing, is_object_key),
        decreases ancestors.len() - i,
    {
        let literal = TailwindLiteral { span, keep_leading, keep_trailing };
        match &ancestors[i] {
            Ancestor::TemplateLiteral { span: s, first_quasi } => {
                match first_quasi {
                    Some(first) => {
                        if *first == child {
                            keep_leading = false;
                        }
                    },
                    None => {},
                }
                child = *s;
            },
            Ancestor::ObjectProperty { span: s, string_key } => {
                match string_key {
                    Some(k) => {
                        if *k != child {
                            return None;
                        }
                    },
                    None => {
                        return None;
                    },
                }
                is_object_key = true;
                child = *s;
            },
            Ancestor::JsxAttribute { name } => {
                if is_object_key {
                    return None;
                }
                return match name {
                    Some(n) => if is_class_attribute_exec(n) { Some(literal) } else { None },
                    None => None,
                };
            },
            Ancestor::CallExpression { callee } => {
                return match callee {
                    Some(n) => if is_default_callee_exec(n) { Some(literal) } else { None },
                    None => None,
                };
            },
            Ancestor::TaggedTemplate { tag } => {
                if is_object_key {
                    return None;
                }
                return match tag {
                    Some(n) => if is_default_tag_exec(n) { Some(literal) } else { None },
                    None => None,
                };
            },
            Ancestor::VariableDeclarator { binding } => {
                if is_object_key {
                    return None;
                }
                return match binding {
                    Some(n) => if is_class_variable_exec(n) { Some(literal) } else { None },
                    None => None,
                };
            },
            Ancestor::FunctionLike => {
                return None;
            },
            Ancestor::Program => {
                return None;
            },
            Ancestor::Other { span: s } => {
                child = *s;
            },
        }
        i = i + 1;
    }
    None
}

} // verus!
