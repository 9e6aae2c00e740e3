//! Shorthand classes: groups of longhand classes (`w-4 h-4`) that one shorthand (`size-4`)
//! replaces, found pattern by pattern in a table of mappings.

use vstd::prelude::*;
use crate::class_rewrites::{base_of, with_base};
use crate::classes::{TailwindCandidate, ClassRun, class_spans, is_class_at, class_runs};
use crate::enforce_consistent_line_wrapping::{class_names, join_seq};
use crate::lint::TailwindLiteral;
use crate::no_duplicate_classes::ws_back;
use crate::rules::{match_pattern, spec_match_pattern};
use crate::text::{byte_offset, byte_offset_of, chars_of, char_is_ascii_whitespace, push_char, push_str, str_eq, strip_suffix, views};

verus! {

/// A mapping: the longhand patterns that together make the shorthand replacements. A pattern
/// ending in `*` captures the rest of the base; the capture fills the `*` of a replacement.
pub type Mapping = (Seq<Seq<char>>, Seq<Seq<char>>);

/// A group of longhand classes, by index, and the classes that replace them.
pub type GroupView = (Seq<int>, Seq<Seq<char>>);

/// A class name without its base: variants and marks, which all the classes of a group share.
pub open spec fn shape_of(name: Seq<char>) -> Seq<char> {
    with_base(name, Seq::empty())
}

/// The first class from index `j` on that is free, not yet in the group, of the group's shape,
/// and that `pattern` matches with the group's capture.
pub open spec fn find_member(names: Seq<Seq<char>>, used: Seq<bool>, indices: Seq<int>, shape: Seq<char>, capture: Seq<char>, pattern: Seq<char>, j: int) -> Option<int>
    decreases names.len() - j,
{
    if j < 0 || j >= names.len() {
        None
    } else if !used[j] && !indices.contains(j) && shape_of(names[j]) == shape
        && spec_match_pattern(base_of(names[j]), pattern) == Some(capture) {
        Some(j)
    } else {
        find_member(names, used, indices, shape, capture, pattern, j + 1)
    }
}

/// The group's indices after finding a member for each of `patterns[k..]`, if every one is found.
pub open spec fn collect_members(names: Seq<Seq<char>>, used: Seq<bool>, patterns: Seq<Seq<char>>, k: int, shape: Seq<char>, capture: Seq<char>, indices: Seq<int>) -> Option<Seq<int>>
    decreases patterns.len() - k,
{
    if k < 0 || k >= patterns.len() {
        Some(indices)
    } else {
        match find_member(names, used, indices, shape, capture, patterns[k], 0) {
            None => None,
            Some(j) => collect_members(names, used, patterns, k + 1, shape, capture, indices.push(j)),
        }
    }
}

/// The base a replacement pattern gives for a capture.
pub open spec fn replacement_base(pattern: Seq<char>, capture: Seq<char>) -> Seq<char> {
    if pattern.len() > 0 && pattern.last() == '*' { pattern.drop_last() + capture } else { pattern }
}

/// The group that starts at class `first` for `mapping`, if every pattern finds its class.
pub open spec fn group_at(names: Seq<Seq<char>>, used: Seq<bool>, mapping: Mapping, first: int) -> Option<GroupView> {
    let (patterns, replacements) = mapping;
    if used[first] || patterns.len() == 0 {
        None
    } else {
        match spec_match_pattern(base_of(names[first]), patterns[0]) {
            None => None,
            Some(capture) => match collect_members(names, used, patterns, 1, shape_of(names[first]), capture, seq![first]) {
                None => None,
                Some(indices) => Some((indices, replacements.map_values(|r: Seq<char>| with_base(names[first], replacement_base(r, capture))))),
            },
        }
    }
}

/// `used` with the classes `indices` marked.
pub open spec fn mark_used(used: Seq<bool>, indices: Seq<int>) -> Seq<bool> {
    Seq::new(used.len(), |j: int| used[j] || indices.contains(j))
}

/// The marks and groups after trying the classes `0..n` as the start of a group for `mapping`.
pub open spec fn groups_for_mapping(names: Seq<Seq<char>>, st: (Seq<bool>, Seq<GroupView>), mapping: Mapping, n: int) -> (Seq<bool>, Seq<GroupView>)
    decreases n,
{
    if n <= 0 {
        st
    } else {
        let prev = groups_for_mapping(names, st, mapping, n - 1);
        match group_at(names, prev.0, mapping, n - 1) {
            None => prev,
            Some(g) => (mark_used(prev.0, g.0), prev.1.push(g)),
        }
    }
}

/// The marks and groups after the mappings `0..m`, in order.
pub open spec fn groups_for_mappings(names: Seq<Seq<char>>, mappings: Seq<Mapping>, m: int) -> (Seq<bool>, Seq<GroupView>)
    decreases m,
{
    if m <= 0 {
        (Seq::new(names.len(), |j: int| false), Seq::empty())
    } else {
        groups_for_mapping(names, groups_for_mappings(names, mappings, m - 1), mappings[m - 1], names.len() as int)
    }
}

/// The shorthand groups of the classes `names`: each mapping in turn, each class in turn as the
/// start of a group, a class in at most one group.
pub open spec fn spec_find_groups(names: Seq<Seq<char>>, mappings: Seq<Mapping>) -> Seq<GroupView> {
    groups_for_mappings(names, mappings, mappings.len() as int).1
}

pub open spec fn ints(v: Seq<usize>) -> Seq<int> {
    v.map_values(|x: usize| x as int)
}

pub(crate) fn contains_index(indices: &Vec<usize>, j: usize) -> (r: bool)
    ensures
        r == ints(indices@).contains(j as int),
{
    let mut k: usize = 0;
    while k < indices.len()
        invariant
            k <= indices@.len(),
            forall|m: int| 0 <= m < k ==> indices@[m] != j,
        decreases indices.len() - k,
    {
        if indices[k] == j {
            assert(ints(indices@)[k as int] == j as int);
            return true;
        }
        k = k + 1;
    }
    proof {
        if ints(indices@).contains(j as int) {
            let m = choose|m: int| 0 <= m < ints(indices@).len() && ints(indices@)[m] == j as int;
            assert(indices@[m] == j);
        }
    }
    false
}

/// The class name without its base.
fn shape_exec(name: &str) -> (r: String)
    ensures
        r@ == shape_of(name@),
{
    let candidate = TailwindCandidate::parse(name);
    proof {
        crate::class_rewrites::lemma_candidate_parts(candidate, name@);
        reveal_strlit("");
    }
    let shape = candidate.replace_base("");
    assert(shape@ =~= shape_of(name@));
    shape
}

/// The capture of `pattern` on the base of `name`.
fn capture_exec<'a>(name: &'a str, pattern: &str) -> (r: Option<&'a str>)
    ensures
        match r {
            Some(c) => spec_match_pattern(base_of(name@), pattern@) == Some(c@),
            None => spec_match_pattern(base_of(name@), pattern@) is None,
        },
{
    let candidate = TailwindCandidate::parse(name);
    proof {
        crate::class_rewrites::lemma_candidate_parts(candidate, name@);
    }
    match_pattern(candidate.base, pattern)
}

fn find_member_exec(names: &Vec<&str>, used: &Vec<bool>, indices: &Vec<usize>, shape: &str, capture: &str, pattern: &str) -> (r: Option<usize>)
    requires
        used@.len() == names@.len(),
    ensures
        match r {
            Some(j) => find_member(views(names@), used@, ints(indices@), shape@, capture@, pattern@, 0) == Some(j as int) && j < names@.len(),
            None => find_member(views(names@), used@, ints(indices@), shape@, capture@, pattern@, 0) is None,
        },
{
    let ghost all = views(names@);
    let mut j: usize = 0;
    while j < names.len()
        invariant
            all == views(names@),
            used@.len() == names@.len(),
            j <= names@.len(),
            find_member(all, used@, ints(indices@), shape@, capture@, pattern@, 0) == find_member(all, used@, ints(indices@), shape@, capture@, pattern@, j as int),
        decreases names.len() - j,
    {
        assert(all[j as int] == names@[j as int]@);
        if !used[j] && !contains_index(indices, j) {
            let candidate_shape = shape_exec(names[j]);
            if str_eq(candidate_shape.as_str(), shape) {
                match capture_exec(names[j], pattern) {
                    Some(c) => {
                        if str_eq(c, capture) {
                            return Some(j);
                        }
                    },
                    None => {},
                }
            }
        }
        j = j + 1;
    }
    None
}

/// The members of the group for `patterns[1..]`, after `first`.
fn collect_exec(names: &Vec<&str>, used: &Vec<bool>, patterns: &Vec<&str>, shape: &str, capture: &str, first: usize) -> (r: Option<Vec<usize>>)
    requires
        used@.len() == names@.len(),
        first < names@.len(),
    ensures
        match r {
            Some(ix) => collect_members(views(names@), used@, views(patterns@), 1, shape@, capture@, seq![first as int]) == Some(ints(ix@))
                && forall|m: int| 0 <= m < ix@.len() ==> (#[trigger] ix@[m]) < names@.len(),
            None => collect_members(views(names@), used@, views(patterns@), 1, shape@, capture@, seq![first as int]) is None,
        },
{
    let ghost all = views(names@);
    let ghost pats = views(patterns@);
    let mut indices: Vec<usize> = Vec::new();
    indices.push(first);
    assert(ints(indices@) =~= seq![first as int]);
    let mut k: usize = 1;
    while k < patterns.len()
        invariant
            all == views(names@),
            pats == views(patterns@),
            used@.len() == names@.len(),
            1 <= k,
            forall|m: int| 0 <= m < indices@.len() ==> (#[trigger] indices@[m]) < names@.len(),
            collect_members(all, used@, pats, 1, shape@, capture@, seq![first as int])
                == collect_members(all, used@, pats, k as int, shape@, capture@, ints(indices@)),
        decreases patterns.len() - k,
    {
        assert(pats[k as int] == patterns@[k as int]@);
        match find_member_exec(names, used, &indices, shape, capture, patterns[k]) {
            Some(j) => {
                let ghost before = ints(indices@);
                indices.push(j);
                assert(ints(indices@) =~= before.push(j as int));
            },
            None => {
                return None;
            },
        }
        k = k + 1;
    }
    Some(indices)
}

/// The group starting at class `first` for the mapping.
fn group_at_exec(names: &Vec<&str>, used: &Vec<bool>, patterns: &Vec<&str>, replacements: &Vec<&str>, first: usize) -> (r: Option<(Vec<usize>, Vec<String>)>)
    requires
        used@.len() == names@.len(),
        first < names@.len(),
    ensures
        match r {
            Some(g) => group_at(views(names@), used@, (views(patterns@), views(replacements@)), first as int) == Some((ints(g.0@), string_list(g.1@)))
                && forall|m: int| 0 <= m < g.0@.len() ==> (#[trigger] g.0@[m]) < names@.len(),
            None => group_at(views(names@), used@, (views(patterns@), views(replacements@)), first as int) is None,
        },
{
    if used[first] || patterns.len() == 0 {
        return None;
    }
    let name = names[first];
    assert(views(names@)[first as int] == name@);
    assert(views(patterns@)[0] == patterns@[0]@);
    let capture = match capture_exec(name, patterns[0]) {
        Some(c) => c,
        None => {
            return None;
        },
    };
    let shape = shape_exec(name);
    let indices = match collect_exec(names, used, patterns, shape.as_str(), capture, first) {
        Some(ix) => ix,
        None => {
            return None;
        },
    };
    let candidate = TailwindCandidate::parse(name);
    proof {
        crate::class_rewrites::lemma_candidate_parts(candidate, name@);
        reveal_strlit("*");
        assert("*"@ =~= seq!['*']);
    }
    let ghost reps = views(replacements@);
    let mut out: Vec<String> = Vec::new();
    let mut k: usize = 0;
    while k < replacements.len()
        invariant
            reps == views(replacements@),
            candidate.parts_of(name@),
            candidate.before_base@ == crate::class_rewrites::before_base_of(name@),
            candidate.after_base@ == crate::class_rewrites::after_base_of(name@),
            "*"@ == seq!['*'],
            k <= replacements@.len(),
            out@.len() == k,
            forall|m: int| 0 <= m < k ==> (#[trigger] out@[m])@ == with_base(name@, replacement_base(reps[m], capture@)),
        decreases replacements.len() - k,
    {
        let r = replacements[k];
        assert(reps[k as int] == r@);
        let fixed = match strip_suffix(r, "*") {
            Some(prefix) => {
                assert(r@.drop_last() =~= prefix@);
                let mut base = prefix.to_owned();
                push_str(&mut base, capture);
                candidate.replace_base(base.as_str())
            },
            None => {
                proof {
                    if r@.len() > 0 && r@.last() == '*' {
                        assert(r@.subrange(r@.len() - 1, r@.len() as int) =~= seq!['*']);
                    }
                }
                candidate.replace_base(r)
            },
        };
        out.push(fixed);
        k = k + 1;
    }
    assert(string_list(out@) =~= reps.map_values(|r: Seq<char>| with_base(name@, replacement_base(r, capture@))));
    Some((indices, out))
}

pub open spec fn string_list(v: Seq<String>) -> Seq<Seq<char>> {
    v.map_values(|s: String| s@)
}

fn mark_used_exec(used: &mut Vec<bool>, indices: &Vec<usize>)
    requires
        forall|m: int| 0 <= m < indices@.len() ==> (#[trigger] indices@[m]) < old(used)@.len(),
    ensures
        final(used)@ == mark_used(old(used)@, ints(indices@)),
{
    let ghost start = used@;
    let mut k: usize = 0;
    while k < indices.len()
        invariant
            used@.len() == start.len(),
            forall|m: int| 0 <= m < indices@.len() ==> (#[trigger] indices@[m]) < start.len(),
            k <= indices@.len(),
            used@ == mark_used(start, ints(indices@.take(k as int))),
        decreases indices.len() - k,
    {
        let ix = indices[k];
        used.set(ix, true);
        proof {
            let next = ints(indices@.take(k + 1));
            assert(next =~= ints(indices@.take(k as int)).push(ix as int));
            assert forall|j: int| 0 <= j < start.len() implies used@[j] == (start[j] || next.contains(j)) by {
                let prev = ints(indices@.take(k as int));
                if j == ix {
                    assert(next[k as int] == j);
                    assert(next.contains(j));
                } else {
                    if next.contains(j) {
                        let m = choose|m: int| 0 <= m < next.len() && next[m] == j;
                        assert(m < k);
                        assert(prev[m] == j);
                        assert(prev.contains(j));
                    }
                    if prev.contains(j) {
                        let m = choose|m: int| 0 <= m < prev.len() && prev[m] == j;
                        assert(next[m] == j);
                        assert(next.contains(j));
                    }
                }
            }
            assert(used@ =~= mark_used(start, next));
        }
        k = k + 1;
    }
    assert(indices@.take(k as int) =~= indices@);
}

pub open spec fn group_list_view(groups: Seq<(Vec<usize>, Vec<String>)>) -> Seq<GroupView> {
    groups.map_values(|g: (Vec<usize>, Vec<String>)| (ints(g.0@), string_list(g.1@)))
}

/// Tries every class as the start of a group for one mapping.
fn groups_for_mapping_exec(names: &Vec<&str>, used: &mut Vec<bool>, groups: &mut Vec<(Vec<usize>, Vec<String>)>, patterns: &Vec<&str>, replacements: &Vec<&str>)
    requires
        old(used)@.len() == names@.len(),
    ensures
        final(used)@.len() == names@.len(),
        (final(used)@, group_list_view(final(groups)@)) == groups_for_mapping(views(names@), (old(used)@, group_list_view(old(groups)@)), (views(patterns@), views(replacements@)), names@.len() as int),
{
    let ghost st = (used@, group_list_view(groups@));
    let ghost mapping = (views(patterns@), views(replacements@));
    let mut first: usize = 0;
    while first < names.len()
        invariant
            used@.len() == names@.len(),
            first <= names@.len(),
            mapping == (views(patterns@), views(replacements@)),
            (used@, group_list_view(groups@)) == groups_for_mapping(views(names@), st, mapping, first as int),
        decreases names.len() - first,
    {
        match group_at_exec(names, used, patterns, replacements, first) {
            Some(group) => {
                mark_used_exec(used, &group.0);
                let ghost before = group_list_view(groups@);
                let ghost gv = (ints(group.0@), string_list(group.1@));
                groups.push(group);
                assert(group_list_view(groups@) =~= before.push(gv));
            },
            None => {},
        }
        first = first + 1;
    }
}

pub open spec fn mappings_view(mappings: Seq<(Vec<&str>, Vec<&str>)>) -> Seq<Mapping> {
    mappings.map_values(|m: (Vec<&str>, Vec<&str>)| (views(m.0@), views(m.1@)))
}

/// The shorthand groups of the classes `names` under the mappings.
pub fn find_groups(names: &Vec<&str>, mappings: &Vec<(Vec<&str>, Vec<&str>)>) -> (r: Vec<(Vec<usize>, Vec<String>)>)
    ensures
        group_list_view(r@) == spec_find_groups(views(names@), mappings_view(mappings@)),
{
    let ghost all = mappings_view(mappings@);
    let mut used: Vec<bool> = Vec::new();
    let mut j: usize = 0;
    while j < names.len()
        invariant
            j <= names@.len(),
            used@.len() == j,
            forall|m: int| 0 <= m < j ==> !(#[trigger] used@[m]),
        decreases names.len() - j,
    {
        used.push(false);
        j = j + 1;
    }
    let mut groups: Vec<(Vec<usize>, Vec<String>)> = Vec::new();
    assert(used@ =~= Seq::new(names@.len(), |j: int| false));
    assert(group_list_view(groups@) =~= Seq::<GroupView>::empty());
    let mut m: usize = 0;
    while m < mappings.len()
        invariant
            all == mappings_view(mappings@),
            m <= mappings@.len(),
            used@.len() == names@.len(),
            (used@, group_list_view(groups@)) == groups_for_mappings(views(names@), all, m as int),
        decreases mappings.len() - m,
    {
        assert(all[m as int] == (views(mappings@[m as int].0@), views(mappings@[m as int].1@)));
        groups_for_mapping_exec(names, &mut used, &mut groups, &mappings[m].0, &mappings[m].1);
        m = m + 1;
    }
    groups
}

/// The longhand patterns and the shorthands that replace them, in the order they are tried.
pub open spec fn spec_shorthand_mappings() -> Seq<Mapping> {
    seq![
        (seq!["w-*"@, "h-*"@], seq!["size-*"@]),
        (seq!["ml-*"@, "mr-*"@, "mt-*"@, "mb-*"@], seq!["m-*"@]),
        (seq!["mx-*"@, "my-*"@], seq!["m-*"@]),
        (seq!["ms-*"@, "me-*"@], seq!["mx-*"@]),
        (seq!["ml-*"@, "mr-*"@], seq!["mx-*"@]),
        (seq!["mt-*"@, "mb-*"@], seq!["my-*"@]),
        (seq!["pl-*"@, "pr-*"@, "pt-*"@, "pb-*"@], seq!["p-*"@]),
        (seq!["px-*"@, "py-*"@], seq!["p-*"@]),
        (seq!["ps-*"@, "pe-*"@], seq!["px-*"@]),
        (seq!["pl-*"@, "pr-*"@], seq!["px-*"@]),
        (seq!["pt-*"@, "pb-*"@], seq!["py-*"@]),
        (seq!["border-t-*"@, "border-b-*"@, "border-l-*"@, "border-r-*"@], seq!["border-*"@]),
        (seq!["border-x-*"@, "border-y-*"@], seq!["border-*"@]),
        (seq!["border-s-*"@, "border-e-*"@], seq!["border-x-*"@]),
        (seq!["border-l-*"@, "border-r-*"@], seq!["border-x-*"@]),
        (seq!["border-t-*"@, "border-b-*"@], seq!["border-y-*"@]),
        (seq!["border-spacing-x-*"@, "border-spacing-y-*"@], seq!["border-spacing-*"@]),
        (seq!["rounded-tl-*"@, "rounded-tr-*"@, "rounded-bl-*"@, "rounded-br-*"@], seq!["rounded-*"@]),
        (seq!["rounded-t-*"@, "rounded-b-*"@], seq!["rounded-*"@]),
        (seq!["rounded-l-*"@, "rounded-r-*"@], seq!["rounded-*"@]),
        (seq!["rounded-tl-*"@, "rounded-tr-*"@], seq!["rounded-t-*"@]),
        (seq!["rounded-bl-*"@, "rounded-br-*"@], seq!["rounded-b-*"@]),
        (seq!["rounded-tl-*"@, "rounded-bl-*"@], seq!["rounded-l-*"@]),
        (seq!["rounded-tr-*"@, "rounded-br-*"@], seq!["rounded-r-*"@]),
        (seq!["scroll-mt-*"@, "scroll-mb-*"@, "scroll-ml-*"@, "scroll-mr-*"@], seq!["scroll-m-*"@]),
        (seq!["scroll-mx-*"@, "scroll-my-*"@], seq!["scroll-m-*"@]),
        (seq!["scroll-ms-*"@, "scroll-me-*"@], seq!["scroll-mx-*"@]),
        (seq!["scroll-ml-*"@, "scroll-mr-*"@], seq!["scroll-mx-*"@]),
        (seq!["scroll-mt-*"@, "scroll-mb-*"@], seq!["scroll-my-*"@]),
        (seq!["scroll-pt-*"@, "scroll-pb-*"@, "scroll-pl-*"@, "scroll-pr-*"@], seq!["scroll-p-*"@]),
        (seq!["scroll-px-*"@, "scroll-py-*"@], seq!["scroll-p-*"@]),
        (seq!["scroll-pl-*"@, "scroll-pr-*"@], seq!["scroll-px-*"@]),
        (seq!["scroll-ps-*"@, "scroll-pe-*"@], seq!["scroll-px-*"@]),
        (seq!["scroll-pt-*"@, "scroll-pb-*"@], seq!["scroll-py-*"@]),
        (seq!["top-*"@, "right-*"@, "bottom-*"@, "left-*"@], seq!["inset-*"@]),
        (seq!["inset-x-*"@, "inset-y-*"@], seq!["inset-*"@]),
        (seq!["divide-x-*"@, "divide-y-*"@], seq!["divide-*"@]),
        (seq!["space-x-*"@, "space-y-*"@], seq!["space-*"@]),
        (seq!["gap-x-*"@, "gap-y-*"@], seq!["gap-*"@]),
        (seq!["translate-x-*"@, "translate-y-*"@], seq!["translate-*"@]),
        (seq!["rotate-x-*"@, "rotate-y-*"@], seq!["rotate-*"@]),
        (seq!["skew-x-*"@, "skew-y-*"@], seq!["skew-*"@]),
        (seq!["scale-x-*"@, "scale-y-*"@, "scale-z-*"@], seq!["scale-*"@, "scale-3d"@]),
        (seq!["scale-x-*"@, "scale-y-*"@], seq!["scale-*"@]),
        (seq!["content-*"@, "justify-content-*"@], seq!["place-content-*"@]),
        (seq!["items-*"@, "justify-items-*"@], seq!["place-items-*"@]),
        (seq!["self-*"@, "justify-self-*"@], seq!["place-self-*"@]),
        (seq!["overflow-hidden"@, "text-ellipsis"@, "whitespace-nowrap"@], seq!["truncate"@]),
    ]
}

/// The table of shorthand mappings.
#[verifier::spinoff_prover]
#[verifier::rlimit(60)]
pub fn shorthand_mappings() -> (r: Vec<(Vec<&'static str>, Vec<&'static str>)>)
    ensures
        mappings_view(r@) == spec_shorthand_mappings(),
{
    let mut table: Vec<(Vec<&'static str>, Vec<&'static str>)> = Vec::new();
    table.push((vec!["w-*", "h-*"], vec!["size-*"]));
    table.push((vec!["ml-*", "mr-*", "mt-*", "mb-*"], vec!["m-*"]));
    table.push((vec!["mx-*", "my-*"], vec!["m-*"]));
    table.push((vec!["ms-*", "me-*"], vec!["mx-*"]));
    table.push((vec!["ml-*", "mr-*"], vec!["mx-*"]));
    table.push((vec!["mt-*", "mb-*"], vec!["my-*"]));
    table.push((vec!["pl-*", "pr-*", "pt-*", "pb-*"], vec!["p-*"]));
    table.push((vec!["px-*", "py-*"], vec!["p-*"]));
    table.push((vec!["ps-*", "pe-*"], vec!["px-*"]));
    table.push((vec!["pl-*", "pr-*"], vec!["px-*"]));
    table.push((vec!["pt-*", "pb-*"], vec!["py-*"]));
    table.push((vec!["border-t-*", "border-b-*", "border-l-*", "border-r-*"], vec!["border-*"]));
    table.push((vec!["border-x-*", "border-y-*"], vec!["border-*"]));
    table.push((vec!["border-s-*", "border-e-*"], vec!["border-x-*"]));
    table.push((vec!["border-l-*", "border-r-*"], vec!["border-x-*"]));
    table.push((vec!["border-t-*", "border-b-*"], vec!["border-y-*"]));
    table.push((vec!["border-spacing-x-*", "border-spacing-y-*"], vec!["border-spacing-*"]));
    table.push((vec!["rounded-tl-*", "rounded-tr-*", "rounded-bl-*", "rounded-br-*"], vec!["rounded-*"]));
    table.push((vec!["rounded-t-*", "rounded-b-*"], vec!["rounded-*"]));
    table.push((vec!["rounded-l-*", "rounded-r-*"], vec!["rounded-*"]));
    table.push((vec!["rounded-tl-*", "rounded-tr-*"], vec!["rounded-t-*"]));
    table.push((vec!["rounded-bl-*", "rounded-br-*"], vec!["rounded-b-*"]));
    table.push((vec!["rounded-tl-*", "rounded-bl-*"], vec!["rounded-l-*"]));
    table.push((vec!["rounded-tr-*", "rounded-br-*"], vec!["rounded-r-*"]));
    table.push((vec!["scroll-mt-*", "scroll-mb-*", "scroll-ml-*", "scroll-mr-*"], vec!["scroll-m-*"]));
    table.push((vec!["scroll-mx-*", "scroll-my-*"], vec!["scroll-m-*"]));
    table.push((vec!["scroll-ms-*", "scroll-me-*"], vec!["scroll-mx-*"]));
    table.push((vec!["scroll-ml-*", "scroll-mr-*"], vec!["scroll-mx-*"]));
    table.push((vec!["scroll-mt-*", "scroll-mb-*"], vec!["scroll-my-*"]));
    table.push((vec!["scroll-pt-*", "scroll-pb-*", "scroll-pl-*", "scroll-pr-*"], vec!["scroll-p-*"]));
    table.push((vec!["scroll-px-*", "scroll-py-*"], vec!["scroll-p-*"]));
    table.push((vec!["scroll-pl-*", "scroll-pr-*"], vec!["scroll-px-*"]));
    table.push((vec!["scroll-ps-*", "scroll-pe-*"], vec!["scroll-px-*"]));
    table.push((vec!["scroll-pt-*", "scroll-pb-*"], vec!["scroll-py-*"]));
    table.push((vec!["top-*", "right-*", "bottom-*", "left-*"], vec!["inset-*"]));
    table.push((vec!["inset-x-*", "inset-y-*"], vec!["inset-*"]));
    table.push((vec!["divide-x-*", "divide-y-*"], vec!["divide-*"]));
    table.push((vec!["space-x-*", "space-y-*"], vec!["space-*"]));
    table.push((vec!["gap-x-*", "gap-y-*"], vec!["gap-*"]));
    table.push((vec!["translate-x-*", "translate-y-*"], vec!["translate-*"]));
    table.push((vec!["rotate-x-*", "rotate-y-*"], vec!["rotate-*"]));
    table.push((vec!["skew-x-*", "skew-y-*"], vec!["skew-*"]));
    table.push((vec!["scale-x-*", "scale-y-*", "scale-z-*"], vec!["scale-*", "scale-3d"]));
    table.push((vec!["scale-x-*", "scale-y-*"], vec!["scale-*"]));
    table.push((vec!["content-*", "justify-content-*"], vec!["place-content-*"]));
    table.push((vec!["items-*", "justify-items-*"], vec!["place-items-*"]));
    table.push((vec!["self-*", "justify-self-*"], vec!["place-self-*"]));
    table.push((vec!["overflow-hidden", "text-ellipsis", "whitespace-nowrap"], vec!["truncate"]));
    assert(mappings_view(table@) =~~= spec_shorthand_mappings());
    table
}

/// Enforces shorthand classes where longhands can be replaced.
#[derive(Clone, Copy)]
pub struct EnforceShorthandClasses;

/// A group of longhand classes to replace: their indices in order, the shorthand text that
/// replaces the first, its span, and the spans (with the whitespace before each) that the fix
/// removes for the others. Offsets count bytes of the class string.
pub struct ShorthandReport {
    pub indices: Vec<usize>,
    pub replacement: String,
    pub start: usize,
    pub end: usize,
    pub removals: Vec<(usize, usize)>,
}

/// Indices sorted ascending: each inserted before the first greater one.
pub open spec fn sort_ints(items: Seq<int>) -> Seq<int>
    decreases items.len(),
{
    if items.len() == 0 {
        Seq::empty()
    } else {
        let sorted = sort_ints(items.drop_last());
        let p = first_greater(sorted, items.last(), 0);
        sorted.subrange(0, p).push(items.last()) + sorted.subrange(p, sorted.len() as int)
    }
}

/// The first index from `i` on whose element is greater than `x`.
pub open spec fn first_greater(sorted: Seq<int>, x: int, i: int) -> int
    decreases sorted.len() - i,
{
    if i < 0 || i >= sorted.len() {
        sorted.len() as int
    } else if sorted[i] > x {
        i
    } else {
        first_greater(sorted, x, i + 1)
    }
}

/// What a report holds: indices, replacement, span of the first class, removals.
pub type ReportView = (Seq<int>, Seq<char>, int, int, Seq<(int, int)>);

/// The report for a group of the classes `spans` of `s`.
pub open spec fn report_of(s: Seq<char>, spans: Seq<(int, int)>, g: GroupView) -> ReportView {
    let sorted = sort_ints(g.0);
    let first = sorted[0];
    (
        sorted,
        join_seq(g.1, seq![' ']),
        byte_offset(s, spans[first].0),
        byte_offset(s, spans[first].1),
        sorted.drop_first().map_values(|i: int| (byte_offset(s, ws_back(s, spans[i].0)), byte_offset(s, spans[i].1))),
    )
}

/// Whether the design system knows every replacement of a group.
pub open spec fn all_known(g: GroupView, unknown: Seq<Seq<char>>) -> bool {
    forall|k: int| 0 <= k < g.1.len() ==> !unknown.contains(#[trigger] g.1[k])
}

/// The reports for the groups `groups[..n]` whose replacements are all known.
pub open spec fn reports_upto(s: Seq<char>, spans: Seq<(int, int)>, groups: Seq<GroupView>, unknown: Seq<Seq<char>>, n: int) -> Seq<ReportView>
    decreases n,
{
    if n <= 0 {
        Seq::empty()
    } else {
        let rest = reports_upto(s, spans, groups, unknown, n - 1);
        if all_known(groups[n - 1], unknown) { rest.push(report_of(s, spans, groups[n - 1])) } else { rest }
    }
}

/// The reports for the class string `s`, given which replacements the design system does not
/// know (everything, when it did not answer).
pub open spec fn spec_shorthand_reports(s: Seq<char>, unknown: Option<Seq<Seq<char>>>) -> Seq<ReportView> {
    let names = class_names(s);
    if names.len() < 2 {
        Seq::empty()
    } else {
        match unknown {
            None => Seq::empty(),
            Some(u) => {
                let groups = spec_find_groups(names, spec_shorthand_mappings());
                reports_upto(s, class_spans(s, 0), groups, u, groups.len() as int)
            },
        }
    }
}

pub open spec fn report_view(r: ShorthandReport) -> ReportView {
    (ints(r.indices@), r.replacement@, r.start as int, r.end as int, r.removals@.map_values(|p: (usize, usize)| (p.0 as int, p.1 as int)))
}

pub(crate) fn sort_indices(items: &Vec<usize>) -> (r: Vec<usize>)
    ensures
        ints(r@) == sort_ints(ints(items@)),
        r@.len() == items@.len(),
{
    let ghost all = ints(items@);
    let mut sorted: Vec<usize> = Vec::new();
    let mut i: usize = 0;
    while i < items.len()
        invariant
            all == ints(items@),
            i <= items@.len(),
            ints(sorted@) == sort_ints(all.take(i as int)),
            sorted@.len() == i,
        decreases items.len() - i,
    {
        let x = items[i];
        assert(all.take(i + 1).drop_last() =~= all.take(i as int));
        let ghost sv = ints(sorted@);
        let mut p: usize = 0;
        while p < sorted.len() && sorted[p] <= x
            invariant
                sv == ints(sorted@),
                p <= sorted@.len(),
                first_greater(sv, x as int, 0) == first_greater(sv, x as int, p as int),
            decreases sorted.len() - p,
        {
            p = p + 1;
        }
        sorted.insert(p, x);
        assert(ints(sorted@) =~= sv.subrange(0, p as int).push(x as int) + sv.subrange(p as int, sv.len() as int));
        i = i + 1;
    }
    assert(all.take(i as int) =~= all);
    sorted
}

fn contains_text(list: &Vec<String>, name: &str) -> (r: bool)
    ensures
        r == string_list(list@).contains(name@),
{
    let mut k: usize = 0;
    while k < list.len()
        invariant
            k <= list@.len(),
            forall|j: int| 0 <= j < k ==> list@[j]@ != name@,
        decreases list.len() - k,
    {
        if str_eq(list[k].as_str(), name) {
            assert(string_list(list@)[k as int] == name@);
            return true;
        }
        k = k + 1;
    }
    proof {
        if string_list(list@).contains(name@) {
            let j = choose|j: int| 0 <= j < string_list(list@).len() && string_list(list@)[j] == name@;
            assert(list@[j]@ == name@);
        }
    }
    false
}

/// Whether every group has at least one class and only classes among the first `n`.
pub open spec fn groups_in_range(groups: Seq<GroupView>, n: int) -> bool {
    forall|k: int| 0 <= k < groups.len() ==> (#[trigger] groups[k]).0.len() >= 1
        && forall|i: int| 0 <= i < groups[k].0.len() ==> 0 <= #[trigger] groups[k].0[i] < n
}

pub proof fn lemma_find_member_range(names: Seq<Seq<char>>, used: Seq<bool>, indices: Seq<int>, shape: Seq<char>, capture: Seq<char>, pattern: Seq<char>, j: int)
    ensures
        find_member(names, used, indices, shape, capture, pattern, j) matches Some(x) ==> 0 <= x < names.len(),
    decreases names.len() - j,
{
    if 0 <= j < names.len() {
        lemma_find_member_range(names, used, indices, shape, capture, pattern, j + 1);
    }
}

pub proof fn lemma_collect_range(names: Seq<Seq<char>>, used: Seq<bool>, patterns: Seq<Seq<char>>, k: int, shape: Seq<char>, capture: Seq<char>, indices: Seq<int>)
    requires
        indices.len() >= 1,
        forall|i: int| 0 <= i < indices.len() ==> 0 <= #[trigger] indices[i] < names.len(),
    ensures
        collect_members(names, used, patterns, k, shape, capture, indices) matches Some(ix) ==>
            ix.len() >= 1 && forall|i: int| 0 <= i < ix.len() ==> 0 <= #[trigger] ix[i] < names.len(),
    decreases patterns.len() - k,
{
    if 0 <= k < patterns.len() {
        lemma_find_member_range(names, used, indices, shape, capture, patterns[k], 0);
        match find_member(names, used, indices, shape, capture, patterns[k], 0) {
            None => {},
            Some(j) => {
                let next = indices.push(j);
                assert forall|i: int| 0 <= i < next.len() implies 0 <= #[trigger] next[i] < names.len() by {
                    if i < indices.len() {
                        assert(next[i] == indices[i]);
                    }
                }
                lemma_collect_range(names, used, patterns, k + 1, shape, capture, next);
            },
        }
    }
}

pub proof fn lemma_groups_for_mapping_range(names: Seq<Seq<char>>, st: (Seq<bool>, Seq<GroupView>), mapping: Mapping, n: int)
    requires
        groups_in_range(st.1, names.len() as int),
        n <= names.len(),
    ensures
        groups_in_range(groups_for_mapping(names, st, mapping, n).1, names.len() as int),
    decreases n,
{
    if n > 0 {
        lemma_groups_for_mapping_range(names, st, mapping, n - 1);
        let prev = groups_for_mapping(names, st, mapping, n - 1);
        let first = n - 1;
        let (patterns, replacements) = mapping;
        if !prev.0[first] && patterns.len() > 0 {
            match spec_match_pattern(base_of(names[first]), patterns[0]) {
                None => {},
                Some(capture) => {
                    lemma_collect_range(names, prev.0, patterns, 1, shape_of(names[first]), capture, seq![first]);
                },
            }
        }
        match group_at(names, prev.0, mapping, n - 1) {
            None => {},
            Some(g) => {
                let groups = prev.1.push(g);
                assert forall|k: int| 0 <= k < groups.len() implies (#[trigger] groups[k]).0.len() >= 1
                    && forall|i: int| 0 <= i < groups[k].0.len() ==> 0 <= #[trigger] groups[k].0[i] < names.len() by {
                    if k < prev.1.len() {
                        assert(groups[k] == prev.1[k]);
                    }
                }
            },
        }
    }
}

pub proof fn lemma_groups_in_range(names: Seq<Seq<char>>, mappings: Seq<Mapping>, m: int)
    ensures
        groups_in_range(groups_for_mappings(names, mappings, m).1, names.len() as int),
    decreases m,
{
    if m > 0 {
        lemma_groups_in_range(names, mappings, m - 1);
        lemma_groups_for_mapping_range(names, groups_for_mappings(names, mappings, m - 1), mappings[m - 1], names.len() as int);
    }
}

fn ws_back_exec(chars: &Vec<char>, end: usize) -> (r: usize)
    requires
        end <= chars@.len(),
    ensures
        r as int == ws_back(chars@, end as int),
{
    let mut p = end;
    while p > 0 && char_is_ascii_whitespace(chars[p - 1])
        invariant
            p <= end <= chars@.len(),
            ws_back(chars@, p as int) == ws_back(chars@, end as int),
        decreases p,
    {
        p = p - 1;
    }
    p
}

/// Every replacement of every group, in order.
pub open spec fn all_replacements(groups: Seq<GroupView>) -> Seq<Seq<char>>
    decreases groups.len(),
{
    if groups.len() == 0 { Seq::empty() } else { all_replacements(groups.drop_last()) + groups.last().1 }
}

fn report_exec(content: &str, chars: &Vec<char>, classes: &Vec<ClassRun>, group: &(Vec<usize>, Vec<String>), Ghost(lead): Ghost<bool>, Ghost(trail): Ghost<bool>) -> (r: ShorthandReport)
    requires
        chars@ == content@,
        classes@.len() == class_spans(chars@, 0).len(),
        forall|j: int| 0 <= j < classes@.len() ==> is_class_at(#[trigger] classes@[j], chars@, class_spans(chars@, 0)[j], lead, trail),
        group.0@.len() >= 1,
        forall|i: int| 0 <= i < group.0@.len() ==> 0 <= #[trigger] group.0@[i] < classes@.len(),
    ensures
        report_view(r) == report_of(chars@, class_spans(chars@, 0), (ints(group.0@), string_list(group.1@))),
{
    let ghost s = chars@;
    let ghost spans = class_spans(s, 0);
    proof {
        crate::enforce_consistent_class_order::lemma_spans_ordered(s, 0);
    }
    let sorted = sort_indices(&group.0);
    let ghost sv = ints(sorted@);
    proof {
        lemma_sort_ints_members(ints(group.0@));
        assert forall|i: int| 0 <= i < sorted@.len() implies (#[trigger] sorted@[i]) < classes@.len() by {
            assert(sv[i] == sorted@[i] as int);
            let j = choose|j: int| 0 <= j < ints(group.0@).len() && ints(group.0@)[j] == sv[i];
            assert(group.0@[j] < classes@.len());
        }
    }
    let first = sorted[0];
    assert(is_class_at(classes@[first as int], s, spans[first as int], lead, trail));
    let mut replacement = String::new();
    let ghost reps = string_list(group.1@);
    let mut k: usize = 0;
    while k < group.1.len()
        invariant
            reps == string_list(group.1@),
            k <= group.1@.len(),
            replacement@ == join_seq(reps.take(k as int), seq![' ']),
        decreases group.1.len() - k,
    {
        assert(reps.take(k + 1).drop_last() =~= reps.take(k as int));
        if k > 0 {
            push_char(&mut replacement, ' ');
        } else {
            assert(reps.take(0) =~= Seq::<Seq<char>>::empty());
        }
        push_str(&mut replacement, group.1[k].as_str());
        k = k + 1;
    }
    assert(reps.take(k as int) =~= reps);
    let mut removals: Vec<(usize, usize)> = Vec::new();
    let mut m: usize = 1;
    while m < sorted.len()
        invariant
            s == chars@,
            spans == class_spans(s, 0),
            sv == ints(sorted@),
            classes@.len() == spans.len(),
            forall|j: int| 0 <= j < classes@.len() ==> is_class_at(#[trigger] classes@[j], s, spans[j], lead, trail),
            forall|i: int| 0 <= i < sorted@.len() ==> (#[trigger] sorted@[i]) < classes@.len(),
            forall|j: int| 0 <= j < spans.len() ==> 0 <= (#[trigger] spans[j]).0 < spans[j].1 <= s.len(),
            1 <= m <= sorted@.len(),
            removals@.len() == m - 1,
            s == content@,
            forall|i: int| 0 <= i < m - 1 ==> (#[trigger] removals@[i]).0 as int == byte_offset(s, ws_back(s, spans[sv[i + 1]].0))
                && removals@[i].1 as int == byte_offset(s, spans[sv[i + 1]].1),
        decreases sorted.len() - m,
    {
        let ix = sorted[m];
        assert(is_class_at(classes@[ix as int], s, spans[ix as int], lead, trail));
        let start = ws_back_exec(chars, classes[ix].start);
        removals.push((byte_offset_of(content, start), byte_offset_of(content, classes[ix].end)));
        m = m + 1;
    }
    let r = ShorthandReport {
        indices: sorted,
        replacement,
        start: byte_offset_of(content, classes[first].start),
        end: byte_offset_of(content, classes[first].end),
        removals,
    };
    assert(r.removals@.map_values(|p: (usize, usize)| (p.0 as int, p.1 as int))
        =~= sv.drop_first().map_values(|i: int| (byte_offset(s, ws_back(s, spans[i].0)), byte_offset(s, spans[i].1))));
    r
}

pub proof fn lemma_sort_ints_members(items: Seq<int>)
    ensures
        sort_ints(items).len() == items.len(),
        forall|i: int| 0 <= i < sort_ints(items).len() ==> items.contains(#[trigger] sort_ints(items)[i]),
    decreases items.len(),
{
    if items.len() > 0 {
        let prev = items.drop_last();
        lemma_sort_ints_members(prev);
        let sorted = sort_ints(prev);
        let x = items.last();
        lemma_first_greater_bounds(sorted, x, 0);
        let p = first_greater(sorted, x, 0);
        let result = sorted.subrange(0, p).push(x) + sorted.subrange(p, sorted.len() as int);
        assert forall|i: int| 0 <= i < result.len() implies items.contains(#[trigger] result[i]) by {
            if i < p {
                assert(result[i] == sorted[i]);
                let j = choose|j: int| 0 <= j < prev.len() && prev[j] == sorted[i];
                assert(items[j] == prev[j]);
            } else if i == p {
                assert(items[items.len() - 1] == x);
            } else {
                assert(result[i] == sorted[i - 1]);
                let j = choose|j: int| 0 <= j < prev.len() && prev[j] == sorted[i - 1];
                assert(items[j] == prev[j]);
            }
        }
    }
}

pub proof fn lemma_first_greater_bounds(sorted: Seq<int>, x: int, i: int)
    requires
        0 <= i <= sorted.len(),
    ensures
        i <= first_greater(sorted, x, i) <= sorted.len(),
    decreases sorted.len() - i,
{
    if i < sorted.len() && sorted[i] <= x {
        lemma_first_greater_bounds(sorted, x, i + 1);
    }
}

pub open spec fn text_list_option(o: Option<&Vec<String>>) -> Option<Seq<Seq<char>>> {
    match o {
        Some(v) => Some(string_list(v@)),
        None => None,
    }
}

/// The groups of the class string `s`, when it has at least two classes.
pub open spec fn groups_of(s: Seq<char>) -> Seq<GroupView> {
    if class_names(s).len() < 2 { Seq::empty() } else { spec_find_groups(class_names(s), spec_shorthand_mappings()) }
}

impl EnforceShorthandClasses {
    /// The shorthand classes that the groups of `content` would be replaced by: what the design
    /// system is asked about before `check`.
    pub fn replacement_names(&self, literal: &TailwindLiteral, content: &str) -> (r: Vec<String>)
        ensures
            string_list(r@) == all_replacements(groups_of(content@)),
    {
        let names = crate::enforce_consistent_line_wrapping::class_name_list(content, literal.keep_leading, literal.keep_trailing);
        let mut out: Vec<String> = Vec::new();
        if names.len() < 2 {
            assert(string_list(out@) =~= Seq::<Seq<char>>::empty());
            return out;
        }
        let table = shorthand_mappings();
        let groups = find_groups(&names, &table);
        let ghost gv = group_list_view(groups@);
        let mut k: usize = 0;
        assert(string_list(out@) =~= all_replacements(gv.take(0)));
        while k < groups.len()
            invariant
                gv == group_list_view(groups@),
                k <= groups@.len(),
                string_list(out@) == all_replacements(gv.take(k as int)),
            decreases groups.len() - k,
        {
            assert(gv.take(k + 1).drop_last() =~= gv.take(k as int));
            let ghost before = string_list(out@);
            let mut j: usize = 0;
            while j < groups[k].1.len()
                invariant
                    gv == group_list_view(groups@),
                    k < groups@.len(),
                    j <= groups@[k as int].1@.len(),
                    string_list(out@) == before + string_list(groups@[k as int].1@).take(j as int),
                decreases groups[k as int].1.len() - j,
            {
                let c = groups[k].1[j].clone();
                let ghost prev = string_list(out@);
                out.push(c);
                assert(string_list(out@) =~= prev.push(c@));
                assert(string_list(groups@[k as int].1@).take(j + 1) =~= string_list(groups@[k as int].1@).take(j as int).push(groups@[k as int].1@[j as int]@));
                assert(string_list(out@) =~= before + string_list(groups@[k as int].1@).take(j + 1));
                j = j + 1;
            }
            assert(string_list(groups@[k as int].1@).take(j as int) =~= gv[k as int].1);
            k = k + 1;
        }
        assert(gv.take(k as int) =~= gv);
        out
    }

    /// The groups of longhand classes in `content` that a shorthand replaces. `unknown` is what
    /// the design system answered, when asked about the `replacement_names`: the names it does
    /// not know. A group with an unknown replacement is left alone; when the design system did
    /// not answer, every group is.
    pub fn check(&self, literal: &TailwindLiteral, content: &str, unknown: Option<&Vec<String>>) -> (r: Vec<ShorthandReport>)
        ensures
            r@.map_values(|x: ShorthandReport| report_view(x)) == spec_shorthand_reports(content@, text_list_option(unknown)),
    {
        let lead = literal.keep_leading;
        let trail = literal.keep_trailing;
        let names = crate::enforce_consistent_line_wrapping::class_name_list(content, lead, trail);
        let mut reports: Vec<ShorthandReport> = Vec::new();
        if names.len() < 2 {
            assert(reports@.map_values(|x: ShorthandReport| report_view(x)) =~= Seq::<ReportView>::empty());
            return reports;
        }
        let unknown = match unknown {
            Some(u) => u,
            None => {
                assert(reports@.map_values(|x: ShorthandReport| report_view(x)) =~= Seq::<ReportView>::empty());
                return reports;
            },
        };
        let chars = chars_of(content);
        let classes = class_runs(content, lead, trail);
        let table = shorthand_mappings();
        let groups = find_groups(&names, &table);
        let ghost s = content@;
        let ghost spans = class_spans(s, 0);
        let ghost gv = group_list_view(groups@);
        let ghost u = string_list(unknown@);
        proof {
            lemma_groups_in_range(class_names(s), spec_shorthand_mappings(), spec_shorthand_mappings().len() as int);
            crate::enforce_consistent_line_wrapping::lemma_class_names_len(s);
        }
        let mut k: usize = 0;
        assert(reports@.map_values(|x: ShorthandReport| report_view(x)) =~= reports_upto(s, spans, gv, u, 0));
        while k < groups.len()
            invariant
                s == content@,
                chars@ == s,
                spans == class_spans(s, 0),
                gv == group_list_view(groups@),
                u == string_list(unknown@),
                classes@.len() == spans.len(),
                forall|j: int| 0 <= j < classes@.len() ==> is_class_at(#[trigger] classes@[j], s, spans[j], lead, trail),
                groups_in_range(gv, classes@.len() as int),
                k <= groups@.len(),
                reports@.map_values(|x: ShorthandReport| report_view(x)) == reports_upto(s, spans, gv, u, k as int),
            decreases groups.len() - k,
        {
            let group = &groups[k];
            assert(gv[k as int] == (ints(group.0@), string_list(group.1@)));
            let mut known = true;
            let mut j: usize = 0;
            while j < group.1.len()
                invariant
                    u == string_list(unknown@),
                    j <= group.1@.len(),
                    known == forall|m: int| 0 <= m < j ==> !u.contains(#[trigger] string_list(group.1@)[m]),
                decreases group.1.len() - j,
            {
                assert(string_list(group.1@)[j as int] == group.1@[j as int]@);
                if contains_text(unknown, group.1[j].as_str()) {
                    known = false;
                }
                j = j + 1;
            }
            assert(gv[k as int].1 == string_list(group.1@));
            assert(known == all_known(gv[k as int], u));
            let ghost before = reports@.map_values(|x: ShorthandReport| report_view(x));
            if known {
                proof {
                    assert(gv[k as int].0.len() >= 1);
                    assert forall|i: int| 0 <= i < group.0@.len() implies 0 <= #[trigger] group.0@[i] < classes@.len() by {
                        assert(gv[k as int].0[i] == group.0@[i] as int);
                    }
                }
                let report = report_exec(content, &chars, &classes, group, Ghost(lead), Ghost(trail));
                reports.push(report);
                assert(reports@.map_values(|x: ShorthandReport| report_view(x)) =~= before.push(report_view(report)));
            }
            k = k + 1;
        }
        reports
    }
}

/// Sorting the indices of a group keeps them all and puts them in ascending order.
pub proof fn sort_ints_sorts(items: Seq<int>)
    ensures
        sort_ints(items).to_multiset() == items.to_multiset(),
        forall|i: int, j: int| 0 <= i < j < sort_ints(items).len() ==> #[trigger] sort_ints(items)[i] <= #[trigger] sort_ints(items)[j],
    decreases items.len(),
{
    broadcast use vstd::seq_lib::group_to_multiset_ensures;
    if items.len() > 0 {
        let rest = items.drop_last();
        sort_ints_sorts(rest);
        let sorted = sort_ints(rest);
        let x = items.last();
        lemma_first_greater(sorted, x, 0);
        let p = first_greater(sorted, x, 0);
        let result = sort_ints(items);
        assert(sorted.subrange(0, p).push(x) + sorted.subrange(p, sorted.len() as int) =~= sorted.insert(p, x));
        assert(items =~= rest.push(x));
        assert forall|i: int, j: int| 0 <= i < j < result.len() implies #[trigger] result[i] <= #[trigger] result[j] by {
            if j < p {
                assert(result[i] == sorted[i] && result[j] == sorted[j]);
            } else if j == p {
                assert(result[i] == sorted[i]);
            } else if i < p {
                assert(result[i] == sorted[i] && result[j] == sorted[j - 1]);
            } else if i == p {
                assert(result[j] == sorted[j - 1]);
                if j - 1 > p {
                    assert(sorted[p] <= sorted[j - 1]);
                }
            } else {
                assert(result[i] == sorted[i - 1] && result[j] == sorted[j - 1]);
            }
        }
    }
}

pub proof fn lemma_first_greater(sorted: Seq<int>, x: int, i: int)
    requires
        0 <= i <= sorted.len(),
    ensures
        i <= first_greater(sorted, x, i) <= sorted.len(),
        forall|j: int| i <= j < first_greater(sorted, x, i) ==> #[trigger] sorted[j] <= x,
        first_greater(sorted, x, i) < sorted.len() ==> sorted[first_greater(sorted, x, i)] > x,
    decreases sorted.len() - i,
{
    if i < sorted.len() && sorted[i] <= x {
        lemma_first_greater(sorted, x, i + 1);
    }
}

} // verus!
