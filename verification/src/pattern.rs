//! Class-name patterns: regular expressions that rule options give, compiled once and matched
//! against class names.

use vstd::prelude::*;
use lazy_regex::{Captures, Regex};

verus! {

#[verifier::external_type_specification]
#[verifier::external_body]
pub struct ExRegex(Regex);

#[verifier::external_type_specification]
#[verifier::external_body]
pub struct ExRegexError(lazy_regex::regex::Error);

#[verifier::external_type_specification]
#[verifier::external_body]
pub struct ExCaptures<'h>(Captures<'h>);

/// Whether `regex` compiles `pattern`: it is a valid expression within the default size limit.
pub uninterp spec fn regex_compiles(pattern: Seq<char>) -> bool;

/// Whether `pattern` matches somewhere in `haystack`.
pub uninterp spec fn regex_matches(pattern: Seq<char>, haystack: Seq<char>) -> bool;

/// `template` with its `$name` and `${name}` references replaced by the groups of the first
/// match of `pattern` in `haystack`.
pub uninterp spec fn regex_expansion(pattern: Seq<char>, haystack: Seq<char>, template: Seq<char>) -> Seq<char>;

/// `Regex::new`: whether it succeeds depends on the pattern alone.
#[verifier::external_body]
fn compile_regex(pattern: &str) -> (r: Result<Regex, lazy_regex::regex::Error>)
    ensures
        r is Ok <==> regex_compiles(pattern@),
{
    Regex::new(pattern)
}

/// A compiled pattern and the text it was compiled from.
pub struct ClassPattern {
    source: String,
    regex: Regex,
}

impl View for ClassPattern {
    type V = Seq<char>;

    closed spec fn view(&self) -> Seq<char> {
        self.source@
    }
}

/// A pattern that does not compile.
pub struct InvalidPattern {
    pub pattern: String,
}

impl ClassPattern {
    /// Compiles `pattern`, or says that it does not compile.
    pub fn new(pattern: &str) -> (r: Result<ClassPattern, InvalidPattern>)
        ensures
            r is Ok <==> regex_compiles(pattern@),
            r matches Ok(p) ==> p@ == pattern@,
            r matches Err(e) ==> e.pattern@ == pattern@,
    {
        match compile_regex(pattern) {
            Ok(regex) => Ok(ClassPattern { source: pattern.to_owned(), regex }),
            Err(_) => Err(InvalidPattern { pattern: pattern.to_owned() }),
        }
    }
}

/// `Regex::is_match` with the regex a pattern was compiled to.
#[verifier::external_body]
pub fn pattern_is_match(pattern: &ClassPattern, haystack: &str) -> (r: bool)
    ensures
        r == regex_matches(pattern@, haystack@),
{
    pattern.regex.is_match(haystack)
}

/// The first match of a pattern in a haystack, with its groups.
pub struct PatternMatch<'p, 'h> {
    captures: Captures<'h>,
    pattern: &'p ClassPattern,
    haystack: &'h str,
}

impl<'p, 'h> PatternMatch<'p, 'h> {
    pub closed spec fn pattern_text(&self) -> Seq<char> {
        self.pattern@
    }

    pub closed spec fn haystack_text(&self) -> Seq<char> {
        self.haystack@
    }
}

/// `Regex::captures`: the first match of the pattern in `haystack`, if it matches.
#[verifier::external_body]
pub fn pattern_captures<'p, 'h>(pattern: &'p ClassPattern, haystack: &'h str) -> (r: Option<PatternMatch<'p, 'h>>)
    ensures
        r is Some <==> regex_matches(pattern@, haystack@),
        r matches Some(m) ==> m.pattern_text() == pattern@ && m.haystack_text() == haystack@,
{
    pattern.regex.captures(haystack).map(|captures| PatternMatch { captures, pattern, haystack })
}

/// `Captures::expand`: `template` with the groups of the match put in.
#[verifier::external_body]
pub fn expand_match(m: &PatternMatch, template: &str) -> (r: String)
    ensures
        r@ == regex_expansion(m.pattern_text(), m.haystack_text(), template@),
{
    let mut out = String::new();
    m.captures.expand(template, &mut out);
    out
}

/// Whether one of `patterns` matches `haystack`.
pub open spec fn any_matches(patterns: Seq<Seq<char>>, haystack: Seq<char>) -> bool {
    exists|k: int| 0 <= k < patterns.len() && #[trigger] regex_matches(patterns[k], haystack)
}

pub open spec fn pattern_views(patterns: Seq<ClassPattern>) -> Seq<Seq<char>> {
    patterns.map_values(|p: ClassPattern| p@)
}

pub fn any_pattern_matches(patterns: &Vec<ClassPattern>, haystack: &str) -> (r: bool)
    ensures
        r == any_matches(pattern_views(patterns@), haystack@),
{
    let ghost ps = pattern_views(patterns@);
    let mut k: usize = 0;
    while k < patterns.len()
        invariant
            ps == pattern_views(patterns@),
            k <= patterns@.len(),
            forall|j: int| 0 <= j < k ==> !regex_matches(#[trigger] ps[j], haystack@),
        decreases patterns.len() - k,
    {
        if pattern_is_match(&patterns[k], haystack) {
            assert(regex_matches(ps[k as int], haystack@));
            return true;
        }
        k = k + 1;
    }
    false
}

/// Compiles each pattern in turn; the first that does not compile is the error.
pub open spec fn first_invalid(patterns: Seq<Seq<char>>) -> Option<int>
    decreases patterns.len(),
{
    if patterns.len() == 0 {
        None
    } else {
        match first_invalid(patterns.drop_last()) {
            Some(k) => Some(k),
            None => if regex_compiles(patterns.last()) { None } else { Some(patterns.len() - 1) },
        }
    }
}

pub fn compile_all(patterns: &Vec<String>) -> (r: Result<Vec<ClassPattern>, InvalidPattern>)
    ensures
        match r {
            Ok(compiled) => first_invalid(crate::compile::texts(patterns@)) is None
                && pattern_views(compiled@) == crate::compile::texts(patterns@),
            Err(e) => first_invalid(crate::compile::texts(patterns@)) matches Some(k)
                && e.pattern@ == crate::compile::texts(patterns@)[k],
        },
{
    let ghost ts = crate::compile::texts(patterns@);
    let mut compiled: Vec<ClassPattern> = Vec::new();
    let mut i: usize = 0;
    while i < patterns.len()
        invariant
            ts == crate::compile::texts(patterns@),
            i <= patterns@.len(),
            first_invalid(ts.take(i as int)) is None,
            pattern_views(compiled@) == ts.take(i as int),
        decreases patterns.len() - i,
    {
        assert(ts.take(i + 1).drop_last() =~= ts.take(i as int));
        match ClassPattern::new(patterns[i].as_str()) {
            Ok(p) => {
                let ghost before = pattern_views(compiled@);
                compiled.push(p);
                assert(pattern_views(compiled@) =~= before.push(ts[i as int]));
                assert(ts.take(i + 1) =~= ts.take(i as int).push(ts[i as int]));
            },
            Err(e) => {
                assert(first_invalid(ts.take(i + 1)) == Some(i as int));
                proof {
                    lemma_first_invalid_prefix(ts, i as int + 1);
                }
                return Err(e);
            },
        }
        i = i + 1;
    }
    assert(ts.take(i as int) =~= ts);
    Ok(compiled)
}

pub proof fn lemma_first_invalid_prefix(ts: Seq<Seq<char>>, n: int)
    requires
        0 <= n <= ts.len(),
        first_invalid(ts.take(n)) is Some,
    ensures
        first_invalid(ts) == first_invalid(ts.take(n)),
    decreases ts.len() - n,
{
    if n < ts.len() {
        assert(ts.take(n + 1).drop_last() =~= ts.take(n));
        lemma_first_invalid_prefix(ts, n + 1);
    } else {
        assert(ts.take(n) =~= ts);
    }
}

} // verus!
