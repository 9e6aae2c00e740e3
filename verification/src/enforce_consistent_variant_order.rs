//! Consistent variant order: the variants of a class sorted by the order that the design system
//! gives them, global variants (ordered at or above `GLOBAL_ORDER`) first, the others keeping
//! their relative order.

use vstd::prelude::*;
use crate::class_rewrites::{ClassFix, class_fix_view, fixes_over};
use crate::classes::{ClassRun, class_spans, is_class_at, class_runs, tailwind_variants, variant_colons};
use crate::lint::TailwindLiteral;
use crate::segment::pieces;
use crate::text::{byte_offset, byte_offset_of, chars_of, push_char, push_str, str_eq, views};

verus! {

/// The order from which a variant counts as global.
pub const GLOBAL_ORDER: u32 = 1073741824;

/// Enforces the variant order of the design system.
#[derive(Clone, Copy)]
pub struct EnforceConsistentVariantOrder;

/// The order of the variant `name`: that of its first entry in `orders`, if any.
pub open spec fn order_of(orders: Seq<(Seq<char>, u32)>, name: Seq<char>) -> Option<u32>
    decreases orders.len(),
{
    if orders.len() == 0 {
        None
    } else if orders[0].0 == name {
        Some(orders[0].1)
    } else {
        order_of(orders.drop_first(), name)
    }
}

/// Whether the variant of order `left` goes after the one of order `right`: global variants
/// come first, by descending order; variants below `GLOBAL_ORDER` tie.
pub open spec fn goes_after(left: u32, right: u32) -> bool {
    !(left == right || (left < GLOBAL_ORDER && right < GLOBAL_ORDER)) && right > left
}

/// The index in `sorted` before which `x` is inserted: the first element that goes after it.
pub open spec fn insert_position(sorted: Seq<(Seq<char>, u32)>, x: (Seq<char>, u32), i: int) -> int
    decreases sorted.len() - i,
{
    if i < 0 || i >= sorted.len() {
        sorted.len() as int
    } else if goes_after(sorted[i].1, x.1) {
        i
    } else {
        insert_position(sorted, x, i + 1)
    }
}

/// The variants with their orders, sorted stably: each inserted before the first that goes
/// after it.
pub open spec fn sort_variants(items: Seq<(Seq<char>, u32)>) -> Seq<(Seq<char>, u32)>
    decreases items.len(),
{
    if items.len() == 0 {
        Seq::empty()
    } else {
        let sorted = sort_variants(items.drop_last());
        let x = items.last();
        let p = insert_position(sorted, x, 0);
        sorted.subrange(0, p).push(x) + sorted.subrange(p, sorted.len() as int)
    }
}

/// Each text followed by a colon.
pub open spec fn with_colons(parts: Seq<Seq<char>>) -> Seq<char>
    decreases parts.len(),
{
    if parts.len() == 0 {
        Seq::empty()
    } else {
        with_colons(parts.drop_last()) + parts.last() + seq![':']
    }
}

/// The number of colons in a text.
pub open spec fn colon_count(s: Seq<char>) -> int
    decreases s.len(),
{
    if s.len() == 0 {
        0
    } else {
        colon_count(s.drop_last()) + if s.last() == ':' { 1int } else { 0int }
    }
}

/// The fix for a class whose variants are out of order. A first variant that the design system
/// does not know (a prefix) stays first; a class with another unknown variant, or fewer than two
/// ordered variants, is left alone.
pub open spec fn variant_fix(name: Seq<char>, orders: Seq<(Seq<char>, u32)>) -> Option<Seq<char>> {
    let parts = pieces(name, variant_colons(name), 0);
    let variants = parts.drop_last();
    let utility = parts.last();
    if variants.len() < 2 {
        None
    } else {
        let has_prefix = has_unknown_prefix(name, orders);
        let ordered = ordered_variants(name, orders);
        if ordered.len() < 2 || exists|k: int| 0 <= k < ordered.len() && order_of(orders, #[trigger] ordered[k]) is None {
            None
        } else {
            let items = ordered.map_values(|v: Seq<char>| (v, order_of(orders, v).unwrap()));
            let sorted = sort_variants(items).map_values(|item: (Seq<char>, u32)| item.0);
            if sorted == ordered {
                None
            } else {
                Some((if has_prefix { variants[0] + seq![':'] } else { Seq::empty() }) + with_colons(sorted) + utility)
            }
        }
    }
}

/// Whether the first variant of a class is unknown to the design system: a prefix.
pub open spec fn has_unknown_prefix(name: Seq<char>, orders: Seq<(Seq<char>, u32)>) -> bool {
    order_of(orders, pieces(name, variant_colons(name), 0).drop_last()[0]) is None
}

/// The variants of a class that are sorted: all but a prefix.
pub open spec fn ordered_variants(name: Seq<char>, orders: Seq<(Seq<char>, u32)>) -> Seq<Seq<char>> {
    let variants = pieces(name, variant_colons(name), 0).drop_last();
    if has_unknown_prefix(name, orders) { variants.drop_first() } else { variants }
}

/// The entries of an order table as texts.
pub open spec fn orders_view(orders: Seq<(String, u32)>) -> Seq<(Seq<char>, u32)> {
    orders.map_values(|e: (String, u32)| (e.0@, e.1))
}

fn order_lookup(orders: &Vec<(String, u32)>, name: &str) -> (r: Option<u32>)
    ensures
        r == order_of(orders_view(orders@), name@),
{
    let ghost all = orders_view(orders@);
    let mut i: usize = 0;
    assert(all.subrange(0, all.len() as int) =~= all);
    while i < orders.len()
        invariant
            all == orders_view(orders@),
            i <= orders@.len(),
            order_of(all, name@) == order_of(all.subrange(i as int, all.len() as int), name@),
        decreases orders.len() - i,
    {
        assert(all.subrange(i as int, all.len() as int).drop_first() =~= all.subrange(i + 1, all.len() as int));
        if str_eq(orders[i].0.as_str(), name) {
            return Some(orders[i].1);
        }
        i = i + 1;
    }
    None
}

/// The items sorted as `sort_variants` sorts them.
fn sort_items<'a>(items: &Vec<(&'a str, u32)>) -> (r: Vec<(&'a str, u32)>)
    ensures
        item_views(r@) == sort_variants(item_views(items@)),
{
    let ghost all = item_views(items@);
    let mut sorted: Vec<(&str, u32)> = Vec::new();
    let mut i: usize = 0;
    while i < items.len()
        invariant
            all == item_views(items@),
            i <= items@.len(),
            item_views(sorted@) == sort_variants(all.take(i as int)),
        decreases items.len() - i,
    {
        let x = items[i];
        assert(all.take(i + 1).drop_last() =~= all.take(i as int));
        let ghost sv = item_views(sorted@);
        let mut p: usize = 0;
        while p < sorted.len() && !goes_after_exec(sorted[p].1, x.1)
            invariant
                sv == item_views(sorted@),
                p <= sorted@.len(),
                insert_position(sv, (x.0@, x.1), 0) == insert_position(sv, (x.0@, x.1), p as int),
            decreases sorted.len() - p,
        {
            p = p + 1;
        }
        sorted.insert(p, x);
        assert(item_views(sorted@) =~= sv.subrange(0, p as int).push((x.0@, x.1)) + sv.subrange(p as int, sv.len() as int));
        i = i + 1;
    }
    assert(all.take(i as int) =~= all);
    sorted
}

pub open spec fn item_views(items: Seq<(&str, u32)>) -> Seq<(Seq<char>, u32)> {
    items.map_values(|e: (&str, u32)| (e.0@, e.1))
}

fn goes_after_exec(left: u32, right: u32) -> (r: bool)
    ensures
        r == goes_after(left, right),
{
    !(left == right || (left < GLOBAL_ORDER && right < GLOBAL_ORDER)) && right > left
}

fn colon_count_exceeds_one(name: &str) -> (r: bool)
    ensures
        r == (colon_count(name@) > 1),
{
    let chars = chars_of(name);
    let mut count: usize = 0;
    let mut i: usize = 0;
    while i < chars.len()
        invariant
            chars@ == name@,
            i <= chars@.len(),
            count == colon_count(name@.take(i as int)),
            count <= i,
        decreases chars.len() - i,
    {
        assert(name@.take(i + 1).drop_last() =~= name@.take(i as int));
        if chars[i] == ':' {
            count = count + 1;
        }
        i = i + 1;
    }
    assert(name@.take(i as int) =~= name@);
    count > 1
}

/// The class name with its variants in order, if they are not.
fn variant_fix_exec(name: &str, orders: &Vec<(String, u32)>) -> (r: Option<String>)
    ensures
        match r {
            Some(t) => variant_fix(name@, orders_view(orders@)) == Some(t@),
            None => variant_fix(name@, orders_view(orders@)) is None,
        },
{
    let ghost o = orders_view(orders@);
    let (variants, utility) = tailwind_variants(name);
    let ghost parts = pieces(name@, variant_colons(name@), 0);
    let ghost vs = parts.drop_last();
    assert(views(variants@) =~= vs);
    assert(parts.last() == utility@);
    if variants.len() < 2 {
        return None;
    }
    let has_prefix = order_lookup(orders, variants[0]).is_none();
    let start: usize = if has_prefix { 1 } else { 0 };
    let ghost ordered = if has_prefix { vs.drop_first() } else { vs };
    assert(ordered =~= vs.subrange(start as int, vs.len() as int));
    if variants.len() - start < 2 {
        return None;
    }
    let mut items: Vec<(&str, u32)> = Vec::new();
    let mut k: usize = start;
    while k < variants.len()
        invariant
            o == orders_view(orders@),
            vs == views(variants@),
            vs == pieces(name@, variant_colons(name@), 0).drop_last(),
            variants@.len() >= 2,
            has_prefix == has_unknown_prefix(name@, o),
            start == (if has_prefix { 1usize } else { 0usize }),
            ordered == ordered_variants(name@, o),
            ordered.len() >= 2,
            ordered == vs.subrange(start as int, vs.len() as int),
            start <= k <= variants@.len(),
            items@.len() == k - start,
            forall|j: int| 0 <= j < k - start ==> order_of(o, #[trigger] ordered[j]) is Some,
            forall|j: int| 0 <= j < k - start ==> (#[trigger] items@[j]).0@ == ordered[j] && items@[j].1 == order_of(o, ordered[j]).unwrap(),
        decreases variants.len() - k,
    {
        assert(ordered[k - start] == variants@[k as int]@);
        match order_lookup(orders, variants[k]) {
            Some(order) => {
                items.push((variants[k], order));
            },
            None => {
                assert(order_of(o, ordered[k - start]) is None);
                assert(exists|j: int| 0 <= j < ordered.len() && order_of(o, #[trigger] ordered[j]) is None);
                assert(pieces(name@, variant_colons(name@), 0).drop_last() == vs);
                assert(variant_fix(name@, o) is None);
                return None;
            },
        }
        k = k + 1;
    }
    let ghost expected_items = ordered.map_values(|v: Seq<char>| (v, order_of(o, v).unwrap()));
    assert(item_views(items@) =~= expected_items);
    let sorted = sort_items(&items);
    let ghost sorted_names = sort_variants(expected_items).map_values(|item: (Seq<char>, u32)| item.0);
    assert(item_views(sorted@).map_values(|item: (Seq<char>, u32)| item.0) == sorted_names);
    let mut same = sorted.len() == items.len();
    let mut j: usize = 0;
    while same && j < sorted.len()
        invariant
            item_views(sorted@) == sort_variants(expected_items),
            item_views(items@) == expected_items,
            expected_items == ordered.map_values(|v: Seq<char>| (v, order_of(o, v).unwrap())),
            ordered.len() == items@.len(),
            sorted_names == item_views(sorted@).map_values(|item: (Seq<char>, u32)| item.0),
            same ==> sorted@.len() == items@.len(),
            j <= sorted@.len(),
            same ==> forall|m: int| 0 <= m < j ==> sorted_names[m] == #[trigger] ordered[m],
            !same ==> sorted_names != ordered,
        decreases sorted.len() - j,
    {
        assert(sorted_names[j as int] == sorted@[j as int].0@);
        proof {
            if j < items@.len() {
                assert(item_views(items@)[j as int] == expected_items[j as int]);
                assert(ordered[j as int] == items@[j as int].0@);
            }
        }
        if !str_eq(sorted[j].0, items[j].0) {
            same = false;
        }
        j = j + 1;
    }
    if same {
        assert(sorted_names =~= ordered);
        return None;
    }
    let mut replacement = String::new();
    if has_prefix {
        push_str(&mut replacement, variants[0]);
        push_char(&mut replacement, ':');
    }
    let ghost head = replacement@;
    let mut m: usize = 0;
    while m < sorted.len()
        invariant
            sorted_names == item_views(sorted@).map_values(|item: (Seq<char>, u32)| item.0),
            m <= sorted@.len(),
            replacement@ == head + with_colons(sorted_names.take(m as int)),
        decreases sorted.len() - m,
    {
        assert(sorted_names.take(m + 1).drop_last() =~= sorted_names.take(m as int));
        push_str(&mut replacement, sorted[m].0);
        push_char(&mut replacement, ':');
        m = m + 1;
    }
    assert(sorted_names.take(m as int) =~= sorted_names);
    push_str(&mut replacement, utility);
    Some(replacement)
}

impl EnforceConsistentVariantOrder {
    /// The classes of `content` whose variants are out of the order `orders` that the design
    /// system gives, each with its variants sorted; none when no class has two colons or when
    /// the design system gave no orders.
    pub fn check(&self, literal: &TailwindLiteral, content: &str, orders: Option<&Vec<(String, u32)>>) -> (r: Vec<ClassFix>)
        ensures
            r@.map_values(|f: ClassFix| class_fix_view(f)) == match orders {
                Some(o) => if exists|k: int| 0 <= k < class_spans(content@, 0).len()
                    && colon_count(content@.subrange(#[trigger] class_spans(content@, 0)[k].0, class_spans(content@, 0)[k].1)) > 1 {
                    fixes_over(content@, class_spans(content@, 0), |name: Seq<char>| variant_fix(name, orders_view(o@)))
                } else {
                    Seq::empty()
                },
                None => Seq::empty(),
            },
    {
        let mut fixes: Vec<ClassFix> = Vec::new();
        let classes = class_runs(content, literal.keep_leading, literal.keep_trailing);
        let ghost s = content@;
        let ghost spans = class_spans(s, 0);
        let mut any = false;
        let mut i: usize = 0;
        while i < classes.len()
            invariant
                s == content@,
                spans == class_spans(s, 0),
                classes@.len() == spans.len(),
                forall|k: int| 0 <= k < classes@.len() ==> is_class_at(#[trigger] classes@[k], s, spans[k], literal.keep_leading, literal.keep_trailing),
                i <= classes@.len(),
                any == exists|k: int| 0 <= k < i && colon_count(s.subrange(#[trigger] spans[k].0, spans[k].1)) > 1,
            decreases classes.len() - i,
        {
            assert(is_class_at(classes@[i as int], s, spans[i as int], literal.keep_leading, literal.keep_trailing));
            if colon_count_exceeds_one(classes[i].name) {
                any = true;
            }
            i = i + 1;
        }
        assert(fixes@.map_values(|f: ClassFix| class_fix_view(f)) =~= Seq::<(int, int, Seq<char>)>::empty());
        if !any {
            return fixes;
        }
        let orders = match orders {
            Some(o) => o,
            None => {
                return fixes;
            },
        };
        let ghost f = |name: Seq<char>| variant_fix(name, orders_view(orders@));
        let mut i: usize = 0;
        assert(fixes@.map_values(|f: ClassFix| class_fix_view(f)) =~= fixes_over(s, spans.take(0), f));
        while i < classes.len()
            invariant
                s == content@,
                spans == class_spans(s, 0),
                f == (|name: Seq<char>| variant_fix(name, orders_view(orders@))),
                classes@.len() == spans.len(),
                forall|k: int| 0 <= k < classes@.len() ==> is_class_at(#[trigger] classes@[k], s, spans[k], literal.keep_leading, literal.keep_trailing),
                i <= classes@.len(),
                fixes@.map_values(|f: ClassFix| class_fix_view(f)) == fixes_over(s, spans.take(i as int), f),
            decreases classes.len() - i,
        {
            let class = classes[i];
            assert(is_class_at(classes@[i as int], s, spans[i as int], literal.keep_leading, literal.keep_trailing));
            assert(spans.take(i + 1).drop_last() =~= spans.take(i as int));
            let ghost before = fixes@.map_values(|f: ClassFix| class_fix_view(f));
            match variant_fix_exec(class.name, orders) {
                Some(fixed) => {
                    fixes.push(ClassFix { start: byte_offset_of(content, class.start), end: byte_offset_of(content, class.end), replacement: fixed });
                    assert(fixes@.map_values(|f: ClassFix| class_fix_view(f)) =~= before.push((byte_offset(s, class.start as int), byte_offset(s, class.end as int), fixed@)));
                },
                None => {},
            }
            i = i + 1;
        }
        assert(spans.take(spans.len() as int) =~= spans);
        fixes
    }
}

/// The key variants are sorted by, descending: the order of a global variant, below every
/// global variant for the others.
pub open spec fn variant_key(order: u32) -> int {
    if order < GLOBAL_ORDER { -1 } else { order as int }
}

pub proof fn lemma_insert_position(sorted: Seq<(Seq<char>, u32)>, x: (Seq<char>, u32), i: int)
    requires
        0 <= i <= sorted.len(),
    ensures
        i <= insert_position(sorted, x, i) <= sorted.len(),
        forall|j: int| i <= j < insert_position(sorted, x, i) ==> !goes_after(#[trigger] sorted[j].1, x.1),
        insert_position(sorted, x, i) < sorted.len() ==> goes_after(sorted[insert_position(sorted, x, i)].1, x.1),
    decreases sorted.len() - i,
{
    if i < sorted.len() && !goes_after(sorted[i].1, x.1) {
        lemma_insert_position(sorted, x, i + 1);
    }
}

/// Sorting keeps every variant: the sorted variants are the same, as many times each.
pub proof fn sort_variants_keeps_variants(items: Seq<(Seq<char>, u32)>)
    ensures
        sort_variants(items).to_multiset() == items.to_multiset(),
    decreases items.len(),
{
    broadcast use vstd::seq_lib::group_to_multiset_ensures;
    if items.len() > 0 {
        let rest = items.drop_last();
        sort_variants_keeps_variants(rest);
        let sorted = sort_variants(rest);
        let x = items.last();
        lemma_insert_position(sorted, x, 0);
        let p = insert_position(sorted, x, 0);
        assert(sorted.subrange(0, p).push(x) + sorted.subrange(p, sorted.len() as int) =~= sorted.insert(p, x));
        assert(items =~= rest.push(x));
    }
}

/// Sorted variants are in order: no variant comes before one that sorts before it (global
/// variants by descending order, then the others).
pub proof fn sort_variants_is_ordered(items: Seq<(Seq<char>, u32)>)
    ensures
        forall|i: int, j: int| 0 <= i < j < sort_variants(items).len() ==>
            variant_key(#[trigger] sort_variants(items)[i].1) >= variant_key(#[trigger] sort_variants(items)[j].1),
        sort_variants(items).len() == items.len(),
    decreases items.len(),
{
    if items.len() > 0 {
        let rest = items.drop_last();
        sort_variants_is_ordered(rest);
        let sorted = sort_variants(rest);
        let x = items.last();
        lemma_insert_position(sorted, x, 0);
        let p = insert_position(sorted, x, 0);
        let result = sort_variants(items);
        assert(result == sorted.subrange(0, p).push(x) + sorted.subrange(p, sorted.len() as int));
        assert forall|i: int, j: int| 0 <= i < j < result.len() implies
            variant_key(#[trigger] result[i].1) >= variant_key(#[trigger] result[j].1) by {
            if j < p {
                assert(result[i] == sorted[i] && result[j] == sorted[j]);
            } else if j == p {
                assert(result[i] == sorted[i]);
                assert(!goes_after(sorted[i].1, x.1));
            } else if i < p {
                assert(result[i] == sorted[i] && result[j] == sorted[j - 1]);
            } else if i == p {
                assert(result[j] == sorted[j - 1]);
                assert(goes_after(sorted[p].1, x.1));
                if j - 1 > p {
                    assert(variant_key(sorted[p].1) >= variant_key(sorted[j - 1].1));
                }
            } else {
                assert(result[i] == sorted[i - 1] && result[j] == sorted[j - 1]);
            }
        }
    }
}

proof fn lemma_with_colons_concat(a: Seq<Seq<char>>, b: Seq<Seq<char>>)
    ensures
        with_colons(a + b) == with_colons(a) + with_colons(b),
    decreases b.len(),
{
    if b.len() == 0 {
        assert(a + b =~= a);
        assert(with_colons(a) + with_colons(b) =~= with_colons(a));
    } else {
        lemma_with_colons_concat(a, b.drop_last());
        assert((a + b).drop_last() =~= a + b.drop_last());
        assert((a + b).last() == b.last());
        assert(with_colons(a + b) =~= with_colons(a) + with_colons(b.drop_last()) + b.last() + seq![':']);
    }
}

proof fn lemma_sorted_names(items: Seq<(Seq<char>, u32)>)
    ensures
        sort_variants(items).map_values(|item: (Seq<char>, u32)| item.0).to_multiset()
            == items.map_values(|item: (Seq<char>, u32)| item.0).to_multiset(),
    decreases items.len(),
{
    broadcast use vstd::seq_lib::group_to_multiset_ensures;
    if items.len() > 0 {
        let rest = items.drop_last();
        lemma_sorted_names(rest);
        let sorted = sort_variants(rest);
        let x = items.last();
        lemma_insert_position(sorted, x, 0);
        let p = insert_position(sorted, x, 0);
        let names = sorted.map_values(|item: (Seq<char>, u32)| item.0);
        assert(sort_variants(items).map_values(|item: (Seq<char>, u32)| item.0) =~= names.insert(p, x.0));
        assert(items.map_values(|item: (Seq<char>, u32)| item.0) =~= rest.map_values(|item: (Seq<char>, u32)| item.0).push(x.0));
    }
}

/// Whether `fix` holds the variants of the class `name`, as many times each and in some
/// order, each followed by a colon, then its utility; a first variant unknown to `orders`
/// (a prefix) stays first.
pub open spec fn reorders_variants(name: Seq<char>, orders: Seq<(Seq<char>, u32)>, fix: Seq<char>) -> bool {
    let parts = pieces(name, variant_colons(name), 0);
    let variants = parts.drop_last();
    exists|vs: Seq<Seq<char>>| {
        &&& #[trigger] vs.to_multiset() == variants.to_multiset()
        &&& vs.len() == variants.len()
        &&& fix == with_colons(vs) + parts.last()
        &&& (order_of(orders, variants[0]) is None ==> vs[0] == variants[0])
    }
}

/// A variant-order fix only reorders: it holds the same variants as the class, as many times
/// each, and the same utility, and a prefix (a first variant that the design system does not
/// order) stays first.
pub proof fn variant_fix_only_reorders(name: Seq<char>, orders: Seq<(Seq<char>, u32)>)
    ensures
        variant_fix(name, orders) matches Some(fix) ==> reorders_variants(name, orders, fix),
{
    broadcast use vstd::seq_lib::group_to_multiset_ensures;
    if let Some(fix) = variant_fix(name, orders) {
        let parts = pieces(name, variant_colons(name), 0);
        let variants = parts.drop_last();
        let utility = parts.last();
        let has_prefix = has_unknown_prefix(name, orders);
        let ordered = ordered_variants(name, orders);
        let items = ordered.map_values(|v: Seq<char>| (v, order_of(orders, v).unwrap()));
        let sorted = sort_variants(items).map_values(|item: (Seq<char>, u32)| item.0);
        let head: Seq<Seq<char>> = if has_prefix { seq![variants[0]] } else { Seq::empty() };
        let vs = head + sorted;
        lemma_sorted_names(items);
        sort_variants_is_ordered(items);
        assert(items.map_values(|item: (Seq<char>, u32)| item.0) =~= ordered);
        assert(variants =~= head + ordered);
        vstd::seq_lib::lemma_multiset_commutative(head, sorted);
        vstd::seq_lib::lemma_multiset_commutative(head, ordered);
        lemma_with_colons_concat(head, sorted);
        if has_prefix {
            assert(with_colons(head) =~= variants[0] + seq![':']) by {
                assert(head.drop_last() =~= Seq::<Seq<char>>::empty());
                assert(head.last() == variants[0]);
                assert(with_colons(head.drop_last()) =~= Seq::<char>::empty());
                assert(with_colons(head) == with_colons(head.drop_last()) + head.last() + seq![':']);
            }
            assert(vs[0] == variants[0]);
        } else {
            assert(with_colons(head) =~= Seq::<char>::empty());
        }
        assert(fix =~= with_colons(vs) + utility);
        assert(vs.to_multiset() == variants.to_multiset());
    }
}

/// In sorted variants the global ones (ordered at or above `GLOBAL_ORDER`) come first, by
/// descending order: no variant comes before a global variant unless it is global with an order
/// at least as high.
pub proof fn global_variants_come_first(items: Seq<(Seq<char>, u32)>)
    ensures
        forall|i: int, j: int| 0 <= i < j < sort_variants(items).len() && (#[trigger] sort_variants(items)[j]).1 >= GLOBAL_ORDER
            ==> (#[trigger] sort_variants(items)[i]).1 >= sort_variants(items)[j].1,
{
    sort_variants_is_ordered(items);
    assert forall|i: int, j: int| 0 <= i < j < sort_variants(items).len() && (#[trigger] sort_variants(items)[j]).1 >= GLOBAL_ORDER
        implies (#[trigger] sort_variants(items)[i]).1 >= sort_variants(items)[j].1 by {
        assert(variant_key(sort_variants(items)[i].1) >= variant_key(sort_variants(items)[j].1));
    }
}

} // verus!
