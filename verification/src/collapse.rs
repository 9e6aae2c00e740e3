//! Canonical class lists: repeats dropped, and classes collapsed into shorthands one step at a
//! time, a font size with a line height (`text-sm leading-6` into `text-sm/6`) and longhands
//! that share a value (`mt-2 mb-2` into `my-2`). Which classes compile to a font size is given
//! by the caller.

use vstd::prelude::*;
use crate::canonical::{
    class_parts, collapse_patterns, concat3, find_collapse, lists_two, pattern_views, spec_class_parts,
    spec_collapse_patterns, spec_find_collapse, string_views,
};
use crate::enforce_shorthand_classes::ints;
use crate::segment::{segment, segment_rejoins, spec_segment};
use crate::text::{push_str, str_eq};

verus! {

/// Whether the class at `i` compiles to a font size, as `font_size` says.
pub open spec fn has_font_size(font_size: Seq<bool>, i: int) -> bool {
    0 <= i < font_size.len() && font_size[i]
}

/// The first class from `j` on, other than the one at `i`, that splits around `leading` with
/// the variant prefix `prefix` and the important mark `important`, with its value.
pub open spec fn leading_partner(
    classes: Seq<Seq<char>>,
    i: int,
    prefix: Seq<char>,
    important: Seq<char>,
    j: int,
) -> Option<(int, Seq<char>)>
    decreases classes.len() - j,
{
    if j < 0 || j >= classes.len() {
        None
    } else {
        match spec_class_parts(classes[j], "leading"@) {
            Some((p, value, imp)) => {
                if j != i && p == prefix && imp == important {
                    Some((j, value))
                } else {
                    leading_partner(classes, i, prefix, important, j + 1)
                }
            },
            None => leading_partner(classes, i, prefix, important, j + 1),
        }
    }
}

/// The font size and line height that collapse, looking from the class at `i` on: the first
/// `text-*` class that compiles to a font size and has a `leading-*` partner. Its indices in
/// ascending order, and the class that replaces the two: the font size (without its own line
/// height) over the partner's value.
pub open spec fn text_leading_from(classes: Seq<Seq<char>>, font_size: Seq<bool>, i: int) -> Option<(Seq<int>, Seq<char>)>
    decreases classes.len() - i,
{
    if i < 0 || i >= classes.len() {
        None
    } else {
        let here = match spec_class_parts(classes[i], "text"@) {
            Some((prefix, value, important)) => {
                if has_font_size(font_size, i) {
                    match leading_partner(classes, i, prefix, important, 0) {
                        Some((j, leading)) => Some((
                            if i < j { seq![i, j] } else { seq![j, i] },
                            prefix + "text-"@ + spec_segment(value, '/')[0] + "/"@ + leading + important,
                        )),
                        None => None,
                    }
                } else {
                    None
                }
            },
            None => None,
        };
        if here is Some {
            here
        } else {
            text_leading_from(classes, font_size, i + 1)
        }
    }
}

/// The first of `patterns` from the `k`-th on that collapses some of `classes`.
pub open spec fn pattern_collapse_from(classes: Seq<Seq<char>>, patterns: Seq<(Seq<Seq<char>>, Seq<char>)>, k: int) -> Option<(Seq<int>, Seq<char>)>
    decreases patterns.len() - k,
{
    if k < 0 || k >= patterns.len() {
        None
    } else {
        match spec_find_collapse(classes, patterns[k]) {
            Some(found) => Some(found),
            None => pattern_collapse_from(classes, patterns, k + 1),
        }
    }
}

/// `classes` without those at `indices`, the rest in order.
pub open spec fn without_indices(classes: Seq<Seq<char>>, indices: Seq<int>) -> Seq<Seq<char>>
    decreases classes.len(),
{
    if classes.len() == 0 {
        classes
    } else {
        let rest = without_indices(classes.drop_last(), indices);
        if indices.contains(classes.len() - 1) {
            rest
        } else {
            rest.push(classes.last())
        }
    }
}

/// `classes` with those at `indices` removed and `replacement` added at the end, unless it is
/// already there.
pub open spec fn apply_collapse(classes: Seq<Seq<char>>, indices: Seq<int>, replacement: Seq<char>) -> Seq<Seq<char>> {
    let kept = without_indices(classes, indices);
    if kept.contains(replacement) {
        kept
    } else {
        kept.push(replacement)
    }
}

/// The collapse that one step makes: a font size with a line height first, then the first
/// collapse pattern that applies.
pub open spec fn spec_next_collapse(classes: Seq<Seq<char>>, font_size: Seq<bool>, logical_to_physical: bool) -> Option<(Seq<int>, Seq<char>)> {
    match text_leading_from(classes, font_size, 0) {
        Some(found) => Some(found),
        None => pattern_collapse_from(classes, spec_collapse_patterns(logical_to_physical), 0),
    }
}

proof fn lemma_leading_partner_range(classes: Seq<Seq<char>>, i: int, prefix: Seq<char>, important: Seq<char>, j: int)
    requires
        0 <= j,
    ensures
        leading_partner(classes, i, prefix, important, j) matches Some((p, _)) ==> j <= p < classes.len() && p != i,
    decreases classes.len() - j,
{
    if j < classes.len() {
        lemma_leading_partner_range(classes, i, prefix, important, j + 1);
    }
}

/// How many of the positions below `n` `indices` lists.
pub open spec fn listed_below(indices: Seq<int>, n: int) -> int
    decreases n,
{
    if n <= 0 {
        0
    } else {
        listed_below(indices, n - 1) + if indices.contains(n - 1) { 1int } else { 0int }
    }
}

proof fn lemma_without_indices_len(classes: Seq<Seq<char>>, indices: Seq<int>)
    ensures
        without_indices(classes, indices).len() == classes.len() - listed_below(indices, classes.len() as int),
    decreases classes.len(),
{
    if classes.len() > 0 {
        lemma_without_indices_len(classes.drop_last(), indices);
    }
}

proof fn lemma_listed_below_two(indices: Seq<int>, n: int, a: int, b: int)
    requires
        a != b,
        0 <= a,
        0 <= b,
        indices.contains(a),
        indices.contains(b),
    ensures
        listed_below(indices, n) >= (if a < n { 1int } else { 0int }) + (if b < n { 1int } else { 0int }),
    decreases n,
{
    if n > 0 {
        lemma_listed_below_two(indices, n - 1, a, b);
    }
}

/// Removing two of the listed classes and adding at most one leaves fewer classes.
proof fn lemma_apply_collapse_shortens(classes: Seq<Seq<char>>, indices: Seq<int>, replacement: Seq<char>)
    requires
        lists_two(indices, classes.len() as int),
    ensures
        apply_collapse(classes, indices, replacement).len() < classes.len(),
{
    let (a, b) = choose|a: int, b: int|
        #![trigger indices.contains(a), indices.contains(b)]
        a != b && 0 <= a < classes.len() && 0 <= b < classes.len() && indices.contains(a) && indices.contains(b);
    lemma_listed_below_two(indices, classes.len() as int, a, b);
    lemma_without_indices_len(classes, indices);
}

fn leading_partner_exec<'a>(classes: &'a Vec<String>, i: usize, prefix: &str, important: &str) -> (r: Option<(usize, &'a str)>)
    ensures
        match r {
            Some((j, value)) => leading_partner(string_views(classes@), i as int, prefix@, important@, 0) == Some((j as int, value@)),
            None => leading_partner(string_views(classes@), i as int, prefix@, important@, 0) is None,
        },
{
    let ghost cs = string_views(classes@);
    let mut j: usize = 0;
    while j < classes.len()
        invariant
            cs == string_views(classes@),
            j <= classes@.len(),
            leading_partner(cs, i as int, prefix@, important@, 0) == leading_partner(cs, i as int, prefix@, important@, j as int),
        decreases classes.len() - j,
    {
        match class_parts(classes[j].as_str(), "leading") {
            Some((p, value, imp)) => {
                if j != i && str_eq(p, prefix) && str_eq(imp, important) {
                    return Some((j, value));
                }
            },
            None => {},
        }
        j = j + 1;
    }
    None
}

/// The font size and line height that collapse: the first `text-*` class that compiles to a
/// font size (as `font_size` says, by index) and has a `leading-*` partner with its variants
/// and important mark. Their indices, ascending, and the class that replaces them.
pub fn find_text_leading_collapse(classes: &Vec<String>, font_size: &Vec<bool>) -> (r: Option<(Vec<usize>, String)>)
    ensures
        match r {
            Some((indices, text)) => text_leading_from(string_views(classes@), font_size@, 0) == Some((ints(indices@), text@)),
            None => text_leading_from(string_views(classes@), font_size@, 0) is None,
        },
        match r {
            Some((indices, _)) => lists_two(ints(indices@), classes@.len() as int),
            None => true,
        },
{
    let ghost cs = string_views(classes@);
    let mut i: usize = 0;
    while i < classes.len()
        invariant
            cs == string_views(classes@),
            i <= classes@.len(),
            text_leading_from(cs, font_size@, 0) == text_leading_from(cs, font_size@, i as int),
        decreases classes.len() - i,
    {
        if i < font_size.len() && font_size[i] {
            match class_parts(classes[i].as_str(), "text") {
                Some((prefix, value, important)) => {
                    match leading_partner_exec(classes, i, prefix, important) {
                        Some((j, leading)) => {
                            proof {
                                lemma_leading_partner_range(cs, i as int, prefix@, important@, 0);
                            }
                            let parts = segment(value, 47u8);
                            proof {
                                segment_rejoins(value@, '/');
                            }
                            let mut text = concat3(prefix, "text-", parts[0]);
                            push_str(&mut text, "/");
                            push_str(&mut text, leading);
                            push_str(&mut text, important);
                            let indices = if i < j { vec![i, j] } else { vec![j, i] };
                            assert(ints(indices@) =~= if i < j { seq![i as int, j as int] } else { seq![j as int, i as int] });
                            assert(ints(indices@).contains(i as int) && ints(indices@).contains(j as int));
                            return Some((indices, text));
                        },
                        None => {},
                    }
                },
                None => {},
            }
        }
        i = i + 1;
    }
    None
}

fn pattern_collapse(classes: &Vec<String>, logical_to_physical: bool) -> (r: Option<(Vec<usize>, String)>)
    ensures
        match r {
            Some((indices, text)) => pattern_collapse_from(string_views(classes@), spec_collapse_patterns(logical_to_physical), 0)
                == Some((ints(indices@), text@)),
            None => pattern_collapse_from(string_views(classes@), spec_collapse_patterns(logical_to_physical), 0) is None,
        },
        match r {
            Some((indices, _)) => lists_two(ints(indices@), classes@.len() as int),
            None => true,
        },
{
    let ghost cs = string_views(classes@);
    let patterns = collapse_patterns(logical_to_physical);
    let ghost ps = spec_collapse_patterns(logical_to_physical);
    let mut k: usize = 0;
    while k < patterns.len()
        invariant
            cs == string_views(classes@),
            ps == spec_collapse_patterns(logical_to_physical),
            pattern_views(patterns@) == ps,
            forall|m: int| 0 <= m < patterns@.len() ==> (#[trigger] patterns@[m]).inputs@.len() >= 2,
            k <= patterns@.len(),
            pattern_collapse_from(cs, ps, 0) == pattern_collapse_from(cs, ps, k as int),
        decreases patterns.len() - k,
    {
        assert(ps[k as int] == crate::canonical::pattern_view(patterns@[k as int]));
        let found = find_collapse(classes, &patterns[k]);
        assert(pattern_collapse_from(cs, ps, k as int) == match spec_find_collapse(cs, ps[k as int]) {
            Some(f) => Some(f),
            None => pattern_collapse_from(cs, ps, k + 1),
        });
        match found {
            Some(found) => {
                assert(spec_find_collapse(cs, ps[k as int]) == Some((ints(found.0@), found.1@)));
                return Some(found);
            },
            None => {},
        }
        k = k + 1;
    }
    None
}

fn keep_unlisted(classes: &Vec<String>, indices: &Vec<usize>) -> (r: Vec<String>)
    ensures
        string_views(r@) == without_indices(string_views(classes@), ints(indices@)),
{
    let ghost cs = string_views(classes@);
    let mut out: Vec<String> = Vec::new();
    let mut k: usize = 0;
    while k < classes.len()
        invariant
            cs == string_views(classes@),
            k <= classes@.len(),
            string_views(out@) == without_indices(cs.take(k as int), ints(indices@)),
        decreases classes.len() - k,
    {
        assert(cs.take(k + 1).drop_last() =~= cs.take(k as int));
        if !crate::enforce_shorthand_classes::contains_index(indices, k) {
            let ghost before = string_views(out@);
            out.push(classes[k].clone());
            assert(string_views(out@) =~= before.push(cs[k as int]));
        }
        k = k + 1;
    }
    assert(cs.take(k as int) =~= cs);
    out
}

fn contains_class(list: &Vec<String>, name: &str) -> (r: bool)
    ensures
        r == string_views(list@).contains(name@),
{
    let mut k: usize = 0;
    while k < list.len()
        invariant
            k <= list@.len(),
            forall|j: int| 0 <= j < k ==> list@[j]@ != name@,
        decreases list.len() - k,
    {
        if str_eq(list[k].as_str(), name) {
            assert(string_views(list@)[k as int] == name@);
            return true;
        }
        k = k + 1;
    }
    proof {
        if string_views(list@).contains(name@) {
            let j = choose|j: int| 0 <= j < string_views(list@).len() && string_views(list@)[j] == name@;
            assert(list@[j]@ == name@);
        }
    }
    false
}

proof fn lemma_without_indices_within(classes: Seq<Seq<char>>, indices: Seq<int>)
    ensures
        forall|x: Seq<char>| without_indices(classes, indices).contains(x) ==> classes.contains(x),
        classes.no_duplicates() ==> without_indices(classes, indices).no_duplicates(),
    decreases classes.len(),
{
    if classes.len() > 0 {
        let prior = classes.drop_last();
        let last = classes.last();
        lemma_without_indices_within(prior, indices);
        let rest = without_indices(prior, indices);
        assert forall|x: Seq<char>| without_indices(classes, indices).contains(x) implies classes.contains(x) by {
            let i = choose|i: int| 0 <= i < without_indices(classes, indices).len() && without_indices(classes, indices)[i] == x;
            if i < rest.len() {
                assert(rest[i] == x);
                assert(rest.contains(x));
                assert(prior.contains(x));
                let j = choose|j: int| 0 <= j < prior.len() && prior[j] == x;
                assert(classes[j] == x);
            } else {
                assert(classes[classes.len() - 1] == x);
            }
        }
        if classes.no_duplicates() && !indices.contains(classes.len() - 1) {
            assert(prior.no_duplicates()) by {
                assert forall|i: int, j: int| 0 <= i < prior.len() && 0 <= j < prior.len() && i != j implies prior[i] != prior[j] by {
                    assert(prior[i] == classes[i] && prior[j] == classes[j]);
                }
            }
            assert(!rest.contains(last)) by {
                if rest.contains(last) {
                    assert(prior.contains(last));
                    let j = choose|j: int| 0 <= j < prior.len() && prior[j] == last;
                    assert(classes[j] == last);
                    assert(classes[classes.len() - 1] == last);
                }
            }
            let kept = rest.push(last);
            assert forall|i: int, j: int| 0 <= i < kept.len() && 0 <= j < kept.len() && i != j implies kept[i] != kept[j] by {
                if i == rest.len() {
                    assert(kept[j] == rest[j]);
                    if kept[i] == kept[j] {
                        assert(rest.contains(last));
                    }
                } else if j == rest.len() {
                    assert(kept[i] == rest[i]);
                    if kept[i] == kept[j] {
                        assert(rest.contains(last));
                    }
                } else {
                    assert(kept[i] == rest[i] && kept[j] == rest[j]);
                }
            }
        } else if classes.no_duplicates() {
            assert(prior.no_duplicates()) by {
                assert forall|i: int, j: int| 0 <= i < prior.len() && 0 <= j < prior.len() && i != j implies prior[i] != prior[j] by {
                    assert(prior[i] == classes[i] && prior[j] == classes[j]);
                }
            }
        }
    }
}

/// A collapse keeps a class list free of repeats: when no class occurs twice before it, none
/// occurs twice after it, and every class after it was there before or is the replacement.
pub proof fn collapse_keeps_classes_unique(classes: Seq<Seq<char>>, indices: Seq<int>, replacement: Seq<char>)
    requires
        classes.no_duplicates(),
    ensures
        apply_collapse(classes, indices, replacement).no_duplicates(),
        forall|x: Seq<char>| apply_collapse(classes, indices, replacement).contains(x) ==> classes.contains(x) || x == replacement,
{
    lemma_without_indices_within(classes, indices);
    let kept = without_indices(classes, indices);
    if !kept.contains(replacement) {
        let out = kept.push(replacement);
        assert forall|i: int, j: int| 0 <= i < out.len() && 0 <= j < out.len() && i != j implies out[i] != out[j] by {
            if i == kept.len() {
                assert(out[j] == kept[j]);
                if out[i] == out[j] {
                    assert(kept.contains(replacement));
                }
            } else if j == kept.len() {
                assert(out[i] == kept[i]);
                if out[i] == out[j] {
                    assert(kept.contains(replacement));
                }
            } else {
                assert(out[i] == kept[i] && out[j] == kept[j]);
            }
        }
        assert forall|x: Seq<char>| out.contains(x) implies classes.contains(x) || x == replacement by {
            let i = choose|i: int| 0 <= i < out.len() && out[i] == x;
            if i < kept.len() {
                assert(kept[i] == x);
            }
        }
    }
}

/// One collapse step: the classes that the next collapse joins are removed and the class that
/// replaces them is added at the end (unless it is already there). `font_size` says, by index,
/// which classes compile to a font size. Whether a step was made is returned; when none
/// applies, the classes are left as they are. A step always leaves fewer classes than it
/// found, so collapsing until no step applies ends.
pub fn collapse_step(classes: &mut Vec<String>, font_size: &Vec<bool>, logical_to_physical: bool) -> (changed: bool)
    ensures
        match spec_next_collapse(string_views(old(classes)@), font_size@, logical_to_physical) {
            Some((indices, replacement)) => changed
                && string_views(final(classes)@) == apply_collapse(string_views(old(classes)@), indices, replacement),
            None => !changed && final(classes)@ == old(classes)@,
        },
        changed ==> final(classes)@.len() < old(classes)@.len(),
        string_views(old(classes)@).no_duplicates() ==> string_views(final(classes)@).no_duplicates(),
{
    let found = match find_text_leading_collapse(classes, font_size) {
        Some(found) => Some(found),
        None => pattern_collapse(classes, logical_to_physical),
    };
    match found {
        Some((indices, replacement)) => {
            proof {
                lemma_apply_collapse_shortens(string_views(classes@), ints(indices@), replacement@);
                if string_views(classes@).no_duplicates() {
                    collapse_keeps_classes_unique(string_views(classes@), ints(indices@), replacement@);
                }
            }
            let mut kept = keep_unlisted(classes, &indices);
            if !contains_class(&kept, replacement.as_str()) {
                let ghost before = string_views(kept@);
                kept.push(replacement);
                assert(string_views(kept@) =~= before.push(replacement@));
            }
            *classes = kept;
            true
        },
        None => false,
    }
}

/// `classes` with each class kept at its first occurrence only.
pub open spec fn first_occurrences(classes: Seq<Seq<char>>) -> Seq<Seq<char>>
    decreases classes.len(),
{
    if classes.len() == 0 {
        classes
    } else {
        let rest = first_occurrences(classes.drop_last());
        if rest.contains(classes.last()) {
            rest
        } else {
            rest.push(classes.last())
        }
    }
}

proof fn lemma_first_occurrences(classes: Seq<Seq<char>>)
    ensures
        first_occurrences(classes).len() <= classes.len(),
        forall|x: Seq<char>| first_occurrences(classes).contains(x) <==> classes.contains(x),
    decreases classes.len(),
{
    if classes.len() > 0 {
        let prior = classes.drop_last();
        lemma_first_occurrences(prior);
        let rest = first_occurrences(prior);
        let last = classes.last();
        assert forall|x: Seq<char>| first_occurrences(classes).contains(x) <==> classes.contains(x) by {
            if classes.contains(x) {
                let i = choose|i: int| 0 <= i < classes.len() && classes[i] == x;
                if i < classes.len() - 1 {
                    assert(prior[i] == x);
                    assert(prior.contains(x));
                    assert(rest.contains(x));
                    if !rest.contains(last) {
                        let j = choose|j: int| 0 <= j < rest.len() && rest[j] == x;
                        assert(rest.push(last)[j] == x);
                    }
                } else if !rest.contains(last) {
                    assert(rest.push(last)[rest.len() as int] == x);
                }
            }
            if first_occurrences(classes).contains(x) {
                let i = choose|i: int| 0 <= i < first_occurrences(classes).len() && first_occurrences(classes)[i] == x;
                if rest.contains(last) || i < rest.len() {
                    assert(rest[i] == x);
                    assert(rest.contains(x));
                    assert(prior.contains(x));
                    let j = choose|j: int| 0 <= j < prior.len() && prior[j] == x;
                    assert(classes[j] == x);
                } else {
                    assert(classes[classes.len() - 1] == x);
                }
            }
        }
    }
}

/// The classes without repeats: each kept where it first occurs. No class occurs twice in the
/// result, every class of the input occurs in it and nothing else does, and it is no longer than
/// the input.
pub fn unique_classes(classes: &Vec<String>) -> (r: Vec<String>)
    ensures
        string_views(r@) == first_occurrences(string_views(classes@)),
        r@.len() <= classes@.len(),
        forall|x: Seq<char>| string_views(r@).contains(x) <==> string_views(classes@).contains(x),
        forall|i: int, j: int| 0 <= i < j < r@.len() ==> #[trigger] r@[i]@ != #[trigger] r@[j]@,
{
    let ghost cs = string_views(classes@);
    let mut out: Vec<String> = Vec::new();
    let mut k: usize = 0;
    while k < classes.len()
        invariant
            cs == string_views(classes@),
            k <= classes@.len(),
            string_views(out@) == first_occurrences(cs.take(k as int)),
            forall|i: int, j: int| 0 <= i < j < out@.len() ==> #[trigger] out@[i]@ != #[trigger] out@[j]@,
        decreases classes.len() - k,
    {
        assert(cs.take(k + 1).drop_last() =~= cs.take(k as int));
        assert(cs.take(k + 1).last() == cs[k as int]);
        if !contains_class(&out, classes[k].as_str()) {
            let ghost before = string_views(out@);
            let ghost prior = out@;
            out.push(classes[k].clone());
            assert(string_views(out@) =~= before.push(cs[k as int]));
            assert forall|i: int, j: int| 0 <= i < j < out@.len() implies #[trigger] out@[i]@ != #[trigger] out@[j]@ by {
                if j == out@.len() - 1 {
                    assert(out@[i]@ == before[i]);
                    assert(!before.contains(cs[k as int]));
                } else {
                    assert(out@[i] == prior[i] && out@[j] == prior[j]);
                }
            }
        }
        k = k + 1;
    }
    assert(cs.take(k as int) =~= cs);
    proof {
        lemma_first_occurrences(cs);
    }
    out
}

} // verus!
