//! What the box utilities of the shorthand table cover: the sides of the box (or the corners,
//! for radii) that each sets, so that a shorthand can be checked against its longhands.

use vstd::prelude::*;
use crate::enforce_shorthand_classes::{Mapping, spec_shorthand_mappings};

verus! {

/// A side or a corner of the box, in a left-to-right horizontal writing mode (so the inline
/// start is the left).
#[derive(Clone, Copy, PartialEq, Eq, Structural)]
pub enum Edge {
    Top,
    Right,
    Bottom,
    Left,
    TopLeft,
    TopRight,
    BottomLeft,
    BottomRight,
}

/// The box properties that a family of utilities sets.
#[derive(Clone, Copy, PartialEq, Eq, Structural)]
pub enum BoxFamily {
    Padding,
    Margin,
    ScrollPadding,
    ScrollMargin,
    Border,
    Radius,
    Inset,
}

pub open spec fn all_sides() -> Set<Edge> {
    set![Edge::Top, Edge::Right, Edge::Bottom, Edge::Left]
}

pub open spec fn all_corners() -> Set<Edge> {
    set![Edge::TopLeft, Edge::TopRight, Edge::BottomLeft, Edge::BottomRight]
}

/// The sides named by a one-letter suffix: an axis (`x`, `y`), a side (`t`, `r`, `b`, `l`) or
/// an inline end (`s`, `e`).
pub open spec fn side_letter(c: char) -> Option<Set<Edge>> {
    if c == 'x' { Some(set![Edge::Left, Edge::Right]) }
    else if c == 'y' { Some(set![Edge::Top, Edge::Bottom]) }
    else if c == 't' { Some(set![Edge::Top]) }
    else if c == 'r' { Some(set![Edge::Right]) }
    else if c == 'b' { Some(set![Edge::Bottom]) }
    else if c == 'l' { Some(set![Edge::Left]) }
    else if c == 's' { Some(set![Edge::Left]) }
    else if c == 'e' { Some(set![Edge::Right]) }
    else { None }
}

/// Whether `r` is the text `w` (compared first by its ends, then by every character).
pub open spec fn same_text(r: Seq<char>, w: Seq<char>) -> bool {
    r.len() == w.len() && w.len() > 0 && r[0] == w[0] && r.last() == w.last() && r =~= w
}

/// Whether `r` starts with the text `w`.
pub open spec fn starts_text(r: Seq<char>, w: Seq<char>) -> bool {
    r.len() >= w.len() && w.len() > 0 && r[0] == w[0] && r[w.len() - 1] == w.last() && r.subrange(0, w.len() as int) =~= w
}

/// The corners named by a radius suffix: a side (both its corners) or a corner.
pub open spec fn corner_suffix(s: Seq<char>) -> Option<Set<Edge>> {
    if s.len() == 1 && s[0] == 't' { Some(set![Edge::TopLeft, Edge::TopRight]) }
    else if s.len() == 1 && s[0] == 'b' { Some(set![Edge::BottomLeft, Edge::BottomRight]) }
    else if s.len() == 1 && s[0] == 'l' { Some(set![Edge::TopLeft, Edge::BottomLeft]) }
    else if s.len() == 1 && s[0] == 'r' { Some(set![Edge::TopRight, Edge::BottomRight]) }
    else if s.len() == 2 && s[0] == 't' && s[1] == 'l' { Some(set![Edge::TopLeft]) }
    else if s.len() == 2 && s[0] == 't' && s[1] == 'r' { Some(set![Edge::TopRight]) }
    else if s.len() == 2 && s[0] == 'b' && s[1] == 'l' { Some(set![Edge::BottomLeft]) }
    else if s.len() == 2 && s[0] == 'b' && s[1] == 'r' { Some(set![Edge::BottomRight]) }
    else { None }
}

/// The edges of a utility root made of `family` and an optional one-letter side suffix
/// (`sep` is the text between them), if `root` is one.
pub open spec fn sided(root: Seq<char>, family: Seq<char>, sep: Seq<char>) -> Option<Set<Edge>> {
    if same_text(root, family) {
        Some(all_sides())
    } else if root.len() == family.len() + sep.len() + 1 && starts_text(root, family + sep) {
        side_letter(root.last())
    } else {
        None
    }
}

/// The family and edges of a box utility root, if it is one.
pub open spec fn box_root(r: Seq<char>) -> Option<(BoxFamily, Set<Edge>)> {
    if sided(r, seq!['p'], Seq::empty()) is Some {
        Some((BoxFamily::Padding, sided(r, seq!['p'], Seq::empty())->0))
    } else if sided(r, seq!['m'], Seq::empty()) is Some {
        Some((BoxFamily::Margin, sided(r, seq!['m'], Seq::empty())->0))
    } else if sided(r, seq!['s', 'c', 'r', 'o', 'l', 'l', '-', 'p'], Seq::empty()) is Some {
        Some((BoxFamily::ScrollPadding, sided(r, seq!['s', 'c', 'r', 'o', 'l', 'l', '-', 'p'], Seq::empty())->0))
    } else if sided(r, seq!['s', 'c', 'r', 'o', 'l', 'l', '-', 'm'], Seq::empty()) is Some {
        Some((BoxFamily::ScrollMargin, sided(r, seq!['s', 'c', 'r', 'o', 'l', 'l', '-', 'm'], Seq::empty())->0))
    } else if sided(r, seq!['b', 'o', 'r', 'd', 'e', 'r'], seq!['-']) is Some {
        Some((BoxFamily::Border, sided(r, seq!['b', 'o', 'r', 'd', 'e', 'r'], seq!['-'])->0))
    } else if same_text(r, seq!['r', 'o', 'u', 'n', 'd', 'e', 'd']) {
        Some((BoxFamily::Radius, all_corners()))
    } else if r.len() > 8 && starts_text(r, seq!['r', 'o', 'u', 'n', 'd', 'e', 'd', '-'])
        && corner_suffix(r.subrange(8, r.len() as int)) is Some {
        Some((BoxFamily::Radius, corner_suffix(r.subrange(8, r.len() as int))->0))
    } else if same_text(r, seq!['i', 'n', 's', 'e', 't']) {
        Some((BoxFamily::Inset, all_sides()))
    } else if same_text(r, seq!['i', 'n', 's', 'e', 't', '-', 'x']) {
        Some((BoxFamily::Inset, set![Edge::Left, Edge::Right]))
    } else if same_text(r, seq!['i', 'n', 's', 'e', 't', '-', 'y']) {
        Some((BoxFamily::Inset, set![Edge::Top, Edge::Bottom]))
    } else if same_text(r, seq!['t', 'o', 'p']) {
        Some((BoxFamily::Inset, set![Edge::Top]))
    } else if same_text(r, seq!['r', 'i', 'g', 'h', 't']) {
        Some((BoxFamily::Inset, set![Edge::Right]))
    } else if same_text(r, seq!['b', 'o', 't', 't', 'o', 'm']) {
        Some((BoxFamily::Inset, set![Edge::Bottom]))
    } else if same_text(r, seq!['l', 'e', 'f', 't']) {
        Some((BoxFamily::Inset, set![Edge::Left]))
    } else {
        None
    }
}

/// The family and edges of a utility pattern (`root-*`) of the shorthand table, if its root
/// is a box utility.
pub open spec fn box_utility(u: Seq<char>) -> Option<(BoxFamily, Set<Edge>)> {
    if u.len() >= 3 && u[u.len() - 2] == '-' && u[u.len() - 1] == '*' {
        box_root(u.subrange(0, u.len() - 2))
    } else {
        None
    }
}

/// The edges that the box utilities of `us` cover together.
pub open spec fn edges_of(us: Seq<Seq<char>>) -> Set<Edge>
    decreases us.len(),
{
    if us.len() == 0 {
        Set::empty()
    } else {
        edges_of(us.drop_last()).union(match box_utility(us.last()) {
            Some((_, e)) => e,
            None => Set::empty(),
        })
    }
}

/// Whether every utility of `us` is a box utility of `family`.
pub open spec fn all_in_family(us: Seq<Seq<char>>, family: BoxFamily) -> bool {
    forall|i: int| 0 <= i < us.len() ==> (#[trigger] box_utility(us[i])) is Some && family_of(us[i]) == family
}

/// Whether some utility of `us` is a box utility.
pub open spec fn any_box(us: Seq<Seq<char>>) -> bool {
    exists|i: int| 0 <= i < us.len() && (#[trigger] box_utility(us[i])) is Some
}

/// The family of a box utility.
pub open spec fn family_of(u: Seq<char>) -> BoxFamily {
    match box_utility(u) {
        Some((f, _)) => f,
        None => BoxFamily::Padding,
    }
}

/// Whether a mapping replaces box longhands by a shorthand that sets the same box edges: when
/// any of its utilities is a box utility, all are, of one family, and the shorthands cover
/// exactly the edges that the longhands cover together.
pub open spec fn covers_its_longhands(m: Mapping) -> bool {
    (any_box(m.0) || any_box(m.1)) ==> {
        &&& m.1.len() > 0
        &&& box_utility(m.1[0]) is Some
        &&& all_in_family(m.0, family_of(m.1[0]))
        &&& all_in_family(m.1, family_of(m.1[0]))
        &&& edges_of(m.0) == edges_of(m.1)
    }
}

proof fn row_0()
    ensures
        covers_its_longhands(spec_shorthand_mappings()[0]),
{
    reveal_strlit("h-*");
    reveal_strlit("size-*");
    reveal_strlit("w-*");
    let m = spec_shorthand_mappings()[0];
    assert(m.0 =~= seq!["w-*"@, "h-*"@]);
    assert(m.1 =~= seq!["size-*"@]);
    assert(box_utility("w-*"@) is None);
    assert(box_utility("h-*"@) is None);
    assert(box_utility("size-*"@) is None);
    assert(!any_box(m.0)) by {
        if any_box(m.0) {
            let i = choose|i: int| 0 <= i < m.0.len() && (#[trigger] box_utility(m.0[i])) is Some;
            if i == 0 { assert(m.0[i] == "w-*"@); }
            if i == 1 { assert(m.0[i] == "h-*"@); }
        }
    }
    assert(!any_box(m.1)) by {
        if any_box(m.1) {
            let i = choose|i: int| 0 <= i < m.1.len() && (#[trigger] box_utility(m.1[i])) is Some;
            if i == 0 { assert(m.1[i] == "size-*"@); }
        }
    }
}

proof fn row_1()
    ensures
        covers_its_longhands(spec_shorthand_mappings()[1]),
{
    reveal_strlit("m-*");
    reveal_strlit("mb-*");
    reveal_strlit("ml-*");
    reveal_strlit("mr-*");
    reveal_strlit("mt-*");
    let m = spec_shorthand_mappings()[1];
    assert(m.0 =~= seq!["ml-*"@, "mr-*"@, "mt-*"@, "mb-*"@]);
    assert(m.1 =~= seq!["m-*"@]);
    assert(box_utility("ml-*"@) == Some((BoxFamily::Margin, set![Edge::Left])));
    assert(box_utility("mr-*"@) == Some((BoxFamily::Margin, set![Edge::Right])));
    assert(box_utility("mt-*"@) == Some((BoxFamily::Margin, set![Edge::Top])));
    assert(box_utility("mb-*"@) == Some((BoxFamily::Margin, set![Edge::Bottom])));
    assert(box_utility("m-*"@) == Some((BoxFamily::Margin, set![Edge::Top, Edge::Right, Edge::Bottom, Edge::Left])));
    reveal_with_fuel(edges_of, 6);
    assert(m.0.drop_last() =~= seq!["ml-*"@, "mr-*"@, "mt-*"@]);
    assert(m.0.drop_last().drop_last() =~= seq!["ml-*"@, "mr-*"@]);
    assert(m.0.drop_last().drop_last().drop_last() =~= seq!["ml-*"@]);
    assert(m.0.drop_last().drop_last().drop_last().drop_last() =~= Seq::<Seq<char>>::empty());
    assert(m.1.drop_last() =~= Seq::<Seq<char>>::empty());
    assert(edges_of(m.0) =~= set![Edge::Bottom, Edge::Left, Edge::Right, Edge::Top]);
    assert(edges_of(m.1) =~= set![Edge::Bottom, Edge::Left, Edge::Right, Edge::Top]);
    assert forall|i: int| 0 <= i < m.0.len() implies (#[trigger] box_utility(m.0[i])) is Some && family_of(m.0[i]) == BoxFamily::Margin by {
        if i == 0 { assert(m.0[i] == "ml-*"@); }
        if i == 1 { assert(m.0[i] == "mr-*"@); }
        if i == 2 { assert(m.0[i] == "mt-*"@); }
        if i == 3 { assert(m.0[i] == "mb-*"@); }
    }
    assert forall|i: int| 0 <= i < m.1.len() implies (#[trigger] box_utility(m.1[i])) is Some && family_of(m.1[i]) == BoxFamily::Margin by {
        if i == 0 { assert(m.1[i] == "m-*"@); }
    }
    assert(family_of(m.1[0]) == BoxFamily::Margin);
}

proof fn row_2()
    ensures
        covers_its_longhands(spec_shorthand_mappings()[2]),
{
    reveal_strlit("m-*");
    reveal_strlit("mx-*");
    reveal_strlit("my-*");
    let m = spec_shorthand_mappings()[2];
    assert(m.0 =~= seq!["mx-*"@, "my-*"@]);
    assert(m.1 =~= seq!["m-*"@]);
    assert(box_utility("mx-*"@) == Some((BoxFamily::Margin, set![Edge::Left, Edge::Right])));
    assert(box_utility("my-*"@) == Some((BoxFamily::Margin, set![Edge::Top, Edge::Bottom])));
    assert(box_utility("m-*"@) == Some((BoxFamily::Margin, set![Edge::Top, Edge::Right, Edge::Bottom, Edge::Left])));
    reveal_with_fuel(edges_of, 6);
    assert(m.0.drop_last() =~= seq!["mx-*"@]);
    assert(m.0.drop_last().drop_last() =~= Seq::<Seq<char>>::empty());
    assert(m.1.drop_last() =~= Seq::<Seq<char>>::empty());
    assert(edges_of(m.0) =~= set![Edge::Bottom, Edge::Left, Edge::Right, Edge::Top]);
    assert(edges_of(m.1) =~= set![Edge::Bottom, Edge::Left, Edge::Right, Edge::Top]);
    assert forall|i: int| 0 <= i < m.0.len() implies (#[trigger] box_utility(m.0[i])) is Some && family_of(m.0[i]) == BoxFamily::Margin by {
        if i == 0 { assert(m.0[i] == "mx-*"@); }
        if i == 1 { assert(m.0[i] == "my-*"@); }
    }
    assert forall|i: int| 0 <= i < m.1.len() implies (#[trigger] box_utility(m.1[i])) is Some && family_of(m.1[i]) == BoxFamily::Margin by {
        if i == 0 { assert(m.1[i] == "m-*"@); }
    }
    assert(family_of(m.1[0]) == BoxFamily::Margin);
}

proof fn row_3()
    ensures
        covers_its_longhands(spec_shorthand_mappings()[3]),
{
    reveal_strlit("me-*");
    reveal_strlit("ms-*");
    reveal_strlit("mx-*");
    let m = spec_shorthand_mappings()[3];
    assert(m.0 =~= seq!["ms-*"@, "me-*"@]);
    assert(m.1 =~= seq!["mx-*"@]);
    assert(box_utility("ms-*"@) == Some((BoxFamily::Margin, set![Edge::Left])));
    assert(box_utility("me-*"@) == Some((BoxFamily::Margin, set![Edge::Right])));
    assert(box_utility("mx-*"@) == Some((BoxFamily::Margin, set![Edge::Left, Edge::Right])));
    reveal_with_fuel(edges_of, 6);
    assert(m.0.drop_last() =~= seq!["ms-*"@]);
    assert(m.0.drop_last().drop_last() =~= Seq::<Seq<char>>::empty());
    assert(m.1.drop_last() =~= Seq::<Seq<char>>::empty());
    assert(edges_of(m.0) =~= set![Edge::Left, Edge::Right]);
    assert(edges_of(m.1) =~= set![Edge::Left, Edge::Right]);
    assert forall|i: int| 0 <= i < m.0.len() implies (#[trigger] box_utility(m.0[i])) is Some && family_of(m.0[i]) == BoxFamily::Margin by {
        if i == 0 { assert(m.0[i] == "ms-*"@); }
        if i == 1 { assert(m.0[i] == "me-*"@); }
    }
    assert forall|i: int| 0 <= i < m.1.len() implies (#[trigger] box_utility(m.1[i])) is Some && family_of(m.1[i]) == BoxFamily::Margin by {
        if i == 0 { assert(m.1[i] == "mx-*"@); }
    }
    assert(family_of(m.1[0]) == BoxFamily::Margin);
}

proof fn row_4()
    ensures
        covers_its_longhands(spec_shorthand_mappings()[4]),
{
    reveal_strlit("ml-*");
    reveal_strlit("mr-*");
    reveal_strlit("mx-*");
    let m = spec_shorthand_mappings()[4];
    assert(m.0 =~= seq!["ml-*"@, "mr-*"@]);
    assert(m.1 =~= seq!["mx-*"@]);
    assert(box_utility("ml-*"@) == Some((BoxFamily::Margin, set![Edge::Left])));
    assert(box_utility("mr-*"@) == Some((BoxFamily::Margin, set![Edge::Right])));
    assert(box_utility("mx-*"@) == Some((BoxFamily::Margin, set![Edge::Left, Edge::Right])));
    reveal_with_fuel(edges_of, 6);
    assert(m.0.drop_last() =~= seq!["ml-*"@]);
    assert(m.0.drop_last().drop_last() =~= Seq::<Seq<char>>::empty());
    assert(m.1.drop_last() =~= Seq::<Seq<char>>::empty());
    assert(edges_of(m.0) =~= set![Edge::Left, Edge::Right]);
    assert(edges_of(m.1) =~= set![Edge::Left, Edge::Right]);
    assert forall|i: int| 0 <= i < m.0.len() implies (#[trigger] box_utility(m.0[i])) is Some && family_of(m.0[i]) == BoxFamily::Margin by {
        if i == 0 { assert(m.0[i] == "ml-*"@); }
        if i == 1 { assert(m.0[i] == "mr-*"@); }
    }
    assert forall|i: int| 0 <= i < m.1.len() implies (#[trigger] box_utility(m.1[i])) is Some && family_of(m.1[i]) == BoxFamily::Margin by {
        if i == 0 { assert(m.1[i] == "mx-*"@); }
    }
    assert(family_of(m.1[0]) == BoxFamily::Margin);
}

proof fn row_5()
    ensures
        covers_its_longhands(spec_shorthand_mappings()[5]),
{
    reveal_strlit("mb-*");
    reveal_strlit("mt-*");
    reveal_strlit("my-*");
    let m = spec_shorthand_mappings()[5];
    assert(m.0 =~= seq!["mt-*"@, "mb-*"@]);
    assert(m.1 =~= seq!["my-*"@]);
    assert(box_utility("mt-*"@) == Some((BoxFamily::Margin, set![Edge::Top])));
    assert(box_utility("mb-*"@) == Some((BoxFamily::Margin, set![Edge::Bottom])));
    assert(box_utility("my-*"@) == Some((BoxFamily::Margin, set![Edge::Top, Edge::Bottom])));
    reveal_with_fuel(edges_of, 6);
    assert(m.0.drop_last() =~= seq!["mt-*"@]);
    assert(m.0.drop_last().drop_last() =~= Seq::<Seq<char>>::empty());
    assert(m.1.drop_last() =~= Seq::<Seq<char>>::empty());
    assert(edges_of(m.0) =~= set![Edge::Bottom, Edge::Top]);
    assert(edges_of(m.1) =~= set![Edge::Bottom, Edge::Top]);
    assert forall|i: int| 0 <= i < m.0.len() implies (#[trigger] box_utility(m.0[i])) is Some && family_of(m.0[i]) == BoxFamily::Margin by {
        if i == 0 { assert(m.0[i] == "mt-*"@); }
        if i == 1 { assert(m.0[i] == "mb-*"@); }
    }
    assert forall|i: int| 0 <= i < m.1.len() implies (#[trigger] box_utility(m.1[i])) is Some && family_of(m.1[i]) == BoxFamily::Margin by {
        if i == 0 { assert(m.1[i] == "my-*"@); }
    }
    assert(family_of(m.1[0]) == BoxFamily::Margin);
}

proof fn row_6()
    ensures
        covers_its_longhands(spec_shorthand_mappings()[6]),
{
    reveal_strlit("p-*");
    reveal_strlit("pb-*");
    reveal_strlit("pl-*");
    reveal_strlit("pr-*");
    reveal_strlit("pt-*");
    let m = spec_shorthand_mappings()[6];
    assert(m.0 =~= seq!["pl-*"@, "pr-*"@, "pt-*"@, "pb-*"@]);
    assert(m.1 =~= seq!["p-*"@]);
    assert(box_utility("pl-*"@) == Some((BoxFamily::Padding, set![Edge::Left])));
    assert(box_utility("pr-*"@) == Some((BoxFamily::Padding, set![Edge::Right])));
    assert(box_utility("pt-*"@) == Some((BoxFamily::Padding, set![Edge::Top])));
    assert(box_utility("pb-*"@) == Some((BoxFamily::Padding, set![Edge::Bottom])));
    assert(box_utility("p-*"@) == Some((BoxFamily::Padding, set![Edge::Top, Edge::Right, Edge::Bottom, Edge::Left])));
    reveal_with_fuel(edges_of, 6);
    assert(m.0.drop_last() =~= seq!["pl-*"@, "pr-*"@, "pt-*"@]);
    assert(m.0.drop_last().drop_last() =~= seq!["pl-*"@, "pr-*"@]);
    assert(m.0.drop_last().drop_last().drop_last() =~= seq!["pl-*"@]);
    assert(m.0.drop_last().drop_last().drop_last().drop_last() =~= Seq::<Seq<char>>::empty());
    assert(m.1.drop_last() =~= Seq::<Seq<char>>::empty());
    assert(edges_of(m.0) =~= set![Edge::Bottom, Edge::Left, Edge::Right, Edge::Top]);
    assert(edges_of(m.1) =~= set![Edge::Bottom, Edge::Left, Edge::Right, Edge::Top]);
    assert forall|i: int| 0 <= i < m.0.len() implies (#[trigger] box_utility(m.0[i])) is Some && family_of(m.0[i]) == BoxFamily::Padding by {
        if i == 0 { assert(m.0[i] == "pl-*"@); }
        if i == 1 { assert(m.0[i] == "pr-*"@); }
        if i == 2 { assert(m.0[i] == "pt-*"@); }
        if i == 3 { assert(m.0[i] == "pb-*"@); }
    }
    assert forall|i: int| 0 <= i < m.1.len() implies (#[trigger] box_utility(m.1[i])) is Some && family_of(m.1[i]) == BoxFamily::Padding by {
        if i == 0 { assert(m.1[i] == "p-*"@); }
    }
    assert(family_of(m.1[0]) == BoxFamily::Padding);
}

proof fn row_7()
    ensures
        covers_its_longhands(spec_shorthand_mappings()[7]),
{
    reveal_strlit("p-*");
    reveal_strlit("px-*");
    reveal_strlit("py-*");
    let m = spec_shorthand_mappings()[7];
    assert(m.0 =~= seq!["px-*"@, "py-*"@]);
    assert(m.1 =~= seq!["p-*"@]);
    assert(box_utility("px-*"@) == Some((BoxFamily::Padding, set![Edge::Left, Edge::Right])));
    assert(box_utility("py-*"@) == Some((BoxFamily::Padding, set![Edge::Top, Edge::Bottom])));
    assert(box_utility("p-*"@) == Some((BoxFamily::Padding, set![Edge::Top, Edge::Right, Edge::Bottom, Edge::Left])));
    reveal_with_fuel(edges_of, 6);
    assert(m.0.drop_last() =~= seq!["px-*"@]);
    assert(m.0.drop_last().drop_last() =~= Seq::<Seq<char>>::empty());
    assert(m.1.drop_last() =~= Seq::<Seq<char>>::empty());
    assert(edges_of(m.0) =~= set![Edge::Bottom, Edge::Left, Edge::Right, Edge::Top]);
    assert(edges_of(m.1) =~= set![Edge::Bottom, Edge::Left, Edge::Right, Edge::Top]);
    assert forall|i: int| 0 <= i < m.0.len() implies (#[trigger] box_utility(m.0[i])) is Some && family_of(m.0[i]) == BoxFamily::Padding by {
        if i == 0 { assert(m.0[i] == "px-*"@); }
        if i == 1 { assert(m.0[i] == "py-*"@); }
    }
    assert forall|i: int| 0 <= i < m.1.len() implies (#[trigger] box_utility(m.1[i])) is Some && family_of(m.1[i]) == BoxFamily::Padding by {
        if i == 0 { assert(m.1[i] == "p-*"@); }
    }
    assert(family_of(m.1[0]) == BoxFamily::Padding);
}

proof fn row_8()
    ensures
        covers_its_longhands(spec_shorthand_mappings()[8]),
{
    reveal_strlit("pe-*");
    reveal_strlit("ps-*");
    reveal_strlit("px-*");
    let m = spec_shorthand_mappings()[8];
    assert(m.0 =~= seq!["ps-*"@, "pe-*"@]);
    assert(m.1 =~= seq!["px-*"@]);
    assert(box_utility("ps-*"@) == Some((BoxFamily::Padding, set![Edge::Left])));
    assert(box_utility("pe-*"@) == Some((BoxFamily::Padding, set![Edge::Right])));
    assert(box_utility("px-*"@) == Some((BoxFamily::Padding, set![Edge::Left, Edge::Right])));
    reveal_with_fuel(edges_of, 6);
    assert(m.0.drop_last() =~= seq!["ps-*"@]);
    assert(m.0.drop_last().drop_last() =~= Seq::<Seq<char>>::empty());
    assert(m.1.drop_last() =~= Seq::<Seq<char>>::empty());
    assert(edges_of(m.0) =~= set![Edge::Left, Edge::Right]);
    assert(edges_of(m.1) =~= set![Edge::Left, Edge::Right]);
    assert forall|i: int| 0 <= i < m.0.len() implies (#[trigger] box_utility(m.0[i])) is Some && family_of(m.0[i]) == BoxFamily::Padding by {
        if i == 0 { assert(m.0[i] == "ps-*"@); }
        if i == 1 { assert(m.0[i] == "pe-*"@); }
    }
    assert forall|i: int| 0 <= i < m.1.len() implies (#[trigger] box_utility(m.1[i])) is Some && family_of(m.1[i]) == BoxFamily::Padding by {
        if i == 0 { assert(m.1[i] == "px-*"@); }
    }
    assert(family_of(m.1[0]) == BoxFamily::Padding);
}

proof fn row_9()
    ensures
        covers_its_longhands(spec_shorthand_mappings()[9]),
{
    reveal_strlit("pl-*");
    reveal_strlit("pr-*");
    reveal_strlit("px-*");
    let m = spec_shorthand_mappings()[9];
    assert(m.0 =~= seq!["pl-*"@, "pr-*"@]);
    assert(m.1 =~= seq!["px-*"@]);
    assert(box_utility("pl-*"@) == Some((BoxFamily::Padding, set![Edge::Left])));
    assert(box_utility("pr-*"@) == Some((BoxFamily::Padding, set![Edge::Right])));
    assert(box_utility("px-*"@) == Some((BoxFamily::Padding, set![Edge::Left, Edge::Right])));
    reveal_with_fuel(edges_of, 6);
    assert(m.0.drop_last() =~= seq!["pl-*"@]);
    assert(m.0.drop_last().drop_last() =~= Seq::<Seq<char>>::empty());
    assert(m.1.drop_last() =~= Seq::<Seq<char>>::empty());
    assert(edges_of(m.0) =~= set![Edge::Left, Edge::Right]);
    assert(edges_of(m.1) =~= set![Edge::Left, Edge::Right]);
    assert forall|i: int| 0 <= i < m.0.len() implies (#[trigger] box_utility(m.0[i])) is Some && family_of(m.0[i]) == BoxFamily::Padding by {
        if i == 0 { assert(m.0[i] == "pl-*"@); }
        if i == 1 { assert(m.0[i] == "pr-*"@); }
    }
    assert forall|i: int| 0 <= i < m.1.len() implies (#[trigger] box_utility(m.1[i])) is Some && family_of(m.1[i]) == BoxFamily::Padding by {
        if i == 0 { assert(m.1[i] == "px-*"@); }
    }
    assert(family_of(m.1[0]) == BoxFamily::Padding);
}

proof fn row_10()
    ensures
        covers_its_longhands(spec_shorthand_mappings()[10]),
{
    reveal_strlit("pb-*");
    reveal_strlit("pt-*");
    reveal_strlit("py-*");
    let m = spec_shorthand_mappings()[10];
    assert(m.0 =~= seq!["pt-*"@, "pb-*"@]);
    assert(m.1 =~= seq!["py-*"@]);
    assert(box_utility("pt-*"@) == Some((BoxFamily::Padding, set![Edge::Top])));
    assert(box_utility("pb-*"@) == Some((BoxFamily::Padding, set![Edge::Bottom])));
    assert(box_utility("py-*"@) == Some((BoxFamily::Padding, set![Edge::Top, Edge::Bottom])));
    reveal_with_fuel(edges_of, 6);
    assert(m.0.drop_last() =~= seq!["pt-*"@]);
    assert(m.0.drop_last().drop_last() =~= Seq::<Seq<char>>::empty());
    assert(m.1.drop_last() =~= Seq::<Seq<char>>::empty());
    assert(edges_of(m.0) =~= set![Edge::Bottom, Edge::Top]);
    assert(edges_of(m.1) =~= set![Edge::Bottom, Edge::Top]);
    assert forall|i: int| 0 <= i < m.0.len() implies (#[trigger] box_utility(m.0[i])) is Some && family_of(m.0[i]) == BoxFamily::Padding by {
        if i == 0 { assert(m.0[i] == "pt-*"@); }
        if i == 1 { assert(m.0[i] == "pb-*"@); }
    }
    assert forall|i: int| 0 <= i < m.1.len() implies (#[trigger] box_utility(m.1[i])) is Some && family_of(m.1[i]) == BoxFamily::Padding by {
        if i == 0 { assert(m.1[i] == "py-*"@); }
    }
    assert(family_of(m.1[0]) == BoxFamily::Padding);
}

proof fn row_11()
    ensures
        covers_its_longhands(spec_shorthand_mappings()[11]),
{
    reveal_strlit("border-*");
    reveal_strlit("border-b-*");
    reveal_strlit("border-l-*");
    reveal_strlit("border-r-*");
    reveal_strlit("border-t-*");
    let m = spec_shorthand_mappings()[11];
    assert(m.0 =~= seq!["border-t-*"@, "border-b-*"@, "border-l-*"@, "border-r-*"@]);
    assert(m.1 =~= seq!["border-*"@]);
    assert(box_utility("border-t-*"@) == Some((BoxFamily::Border, set![Edge::Top])));
    assert(box_utility("border-b-*"@) == Some((BoxFamily::Border, set![Edge::Bottom])));
    assert(box_utility("border-l-*"@) == Some((BoxFamily::Border, set![Edge::Left])));
    assert(box_utility("border-r-*"@) == Some((BoxFamily::Border, set![Edge::Right])));
    assert(box_utility("border-*"@) == Some((BoxFamily::Border, set![Edge::Top, Edge::Right, Edge::Bottom, Edge::Left])));
    reveal_with_fuel(edges_of, 6);
    assert(m.0.drop_last() =~= seq!["border-t-*"@, "border-b-*"@, "border-l-*"@]);
    assert(m.0.drop_last().drop_last() =~= seq!["border-t-*"@, "border-b-*"@]);
    assert(m.0.drop_last().drop_last().drop_last() =~= seq!["border-t-*"@]);
    assert(m.0.drop_last().drop_last().drop_last().drop_last() =~= Seq::<Seq<char>>::empty());
    assert(m.1.drop_last() =~= Seq::<Seq<char>>::empty());
    assert(edges_of(m.0) =~= set![Edge::Bottom, Edge::Left, Edge::Right, Edge::Top]);
    assert(edges_of(m.1) =~= set![Edge::Bottom, Edge::Left, Edge::Right, Edge::Top]);
    assert forall|i: int| 0 <= i < m.0.len() implies (#[trigger] box_utility(m.0[i])) is Some && family_of(m.0[i]) == BoxFamily::Border by {
        if i == 0 { assert(m.0[i] == "border-t-*"@); }
        if i == 1 { assert(m.0[i] == "border-b-*"@); }
        if i == 2 { assert(m.0[i] == "border-l-*"@); }
        if i == 3 { assert(m.0[i] == "border-r-*"@); }
    }
    assert forall|i: int| 0 <= i < m.1.len() implies (#[trigger] box_utility(m.1[i])) is Some && family_of(m.1[i]) == BoxFamily::Border by {
        if i == 0 { assert(m.1[i] == "border-*"@); }
    }
    assert(family_of(m.1[0]) == BoxFamily::Border);
}

proof fn row_12()
    ensures
        covers_its_longhands(spec_shorthand_mappings()[12]),
{
    reveal_strlit("border-*");
    reveal_strlit("border-x-*");
    reveal_strlit("border-y-*");
    let m = spec_shorthand_mappings()[12];
    assert(m.0 =~= seq!["border-x-*"@, "border-y-*"@]);
    assert(m.1 =~= seq!["border-*"@]);
    assert(box_utility("border-x-*"@) == Some((BoxFamily::Border, set![Edge::Left, Edge::Right])));
    assert(box_utility("border-y-*"@) == Some((BoxFamily::Border, set![Edge::Top, Edge::Bottom])));
    assert(box_utility("border-*"@) == Some((BoxFamily::Border, set![Edge::Top, Edge::Right, Edge::Bottom, Edge::Left])));
    reveal_with_fuel(edges_of, 6);
    assert(m.0.drop_last() =~= seq!["border-x-*"@]);
    assert(m.0.drop_last().drop_last() =~= Seq::<Seq<char>>::empty());
    assert(m.1.drop_last() =~= Seq::<Seq<char>>::empty());
    assert(edges_of(m.0) =~= set![Edge::Bottom, Edge::Left, Edge::Right, Edge::Top]);
    assert(edges_of(m.1) =~= set![Edge::Bottom, Edge::Left, Edge::Right, Edge::Top]);
    assert forall|i: int| 0 <= i < m.0.len() implies (#[trigger] box_utility(m.0[i])) is Some && family_of(m.0[i]) == BoxFamily::Border by {
        if i == 0 { assert(m.0[i] == "border-x-*"@); }
        if i == 1 { assert(m.0[i] == "border-y-*"@); }
    }
    assert forall|i: int| 0 <= i < m.1.len() implies (#[trigger] box_utility(m.1[i])) is Some && family_of(m.1[i]) == BoxFamily::Border by {
        if i == 0 { assert(m.1[i] == "border-*"@); }
    }
    assert(family_of(m.1[0]) == BoxFamily::Border);
}

proof fn row_13()
    ensures
        covers_its_longhands(spec_shorthand_mappings()[13]),
{
    reveal_strlit("border-e-*");
    reveal_strlit("border-s-*");
    reveal_strlit("border-x-*");
    let m = spec_shorthand_mappings()[13];
    assert(m.0 =~= seq!["border-s-*"@, "border-e-*"@]);
    assert(m.1 =~= seq!["border-x-*"@]);
    assert(box_utility("border-s-*"@) == Some((BoxFamily::Border, set![Edge::Left])));
    assert(box_utility("border-e-*"@) == Some((BoxFamily::Border, set![Edge::Right])));
    assert(box_utility("border-x-*"@) == Some((BoxFamily::Border, set![Edge::Left, Edge::Right])));
    reveal_with_fuel(edges_of, 6);
    assert(m.0.drop_last() =~= seq!["border-s-*"@]);
    assert(m.0.drop_last().drop_last() =~= Seq::<Seq<char>>::empty());
    assert(m.1.drop_last() =~= Seq::<Seq<char>>::empty());
    assert(edges_of(m.0) =~= set![Edge::Left, Edge::Right]);
    assert(edges_of(m.1) =~= set![Edge::Left, Edge::Right]);
    assert forall|i: int| 0 <= i < m.0.len() implies (#[trigger] box_utility(m.0[i])) is Some && family_of(m.0[i]) == BoxFamily::Border by {
        if i == 0 { assert(m.0[i] == "border-s-*"@); }
        if i == 1 { assert(m.0[i] == "border-e-*"@); }
    }
    assert forall|i: int| 0 <= i < m.1.len() implies (#[trigger] box_utility(m.1[i])) is Some && family_of(m.1[i]) == BoxFamily::Border by {
        if i == 0 { assert(m.1[i] == "border-x-*"@); }
    }
    assert(family_of(m.1[0]) == BoxFamily::Border);
}

proof fn row_14()
    ensures
        covers_its_longhands(spec_shorthand_mappings()[14]),
{
    reveal_strlit("border-l-*");
    reveal_strlit("border-r-*");
    reveal_strlit("border-x-*");
    let m = spec_shorthand_mappings()[14];
    assert(m.0 =~= seq!["border-l-*"@, "border-r-*"@]);
    assert(m.1 =~= seq!["border-x-*"@]);
    assert(box_utility("border-l-*"@) == Some((BoxFamily::Border, set![Edge::Left])));
    assert(box_utility("border-r-*"@) == Some((BoxFamily::Border, set![Edge::Right])));
    assert(box_utility("border-x-*"@) == Some((BoxFamily::Border, set![Edge::Left, Edge::Right])));
    reveal_with_fuel(edges_of, 6);
    assert(m.0.drop_last() =~= seq!["border-l-*"@]);
    assert(m.0.drop_last().drop_last() =~= Seq::<Seq<char>>::empty());
    assert(m.1.drop_last() =~= Seq::<Seq<char>>::empty());
    assert(edges_of(m.0) =~= set![Edge::Left, Edge::Right]);
    assert(edges_of(m.1) =~= set![Edge::Left, Edge::Right]);
    assert forall|i: int| 0 <= i < m.0.len() implies (#[trigger] box_utility(m.0[i])) is Some && family_of(m.0[i]) == BoxFamily::Border by {
        if i == 0 { assert(m.0[i] == "border-l-*"@); }
        if i == 1 { assert(m.0[i] == "border-r-*"@); }
    }
    assert forall|i: int| 0 <= i < m.1.len() implies (#[trigger] box_utility(m.1[i])) is Some && family_of(m.1[i]) == BoxFamily::Border by {
        if i == 0 { assert(m.1[i] == "border-x-*"@); }
    }
    assert(family_of(m.1[0]) == BoxFamily::Border);
}

proof fn row_15()
    ensures
        covers_its_longhands(spec_shorthand_mappings()[15]),
{
    reveal_strlit("border-b-*");
    reveal_strlit("border-t-*");
    reveal_strlit("border-y-*");
    let m = spec_shorthand_mappings()[15];
    assert(m.0 =~= seq!["border-t-*"@, "border-b-*"@]);
    assert(m.1 =~= seq!["border-y-*"@]);
    assert(box_utility("border-t-*"@) == Some((BoxFamily::Border, set![Edge::Top])));
    assert(box_utility("border-b-*"@) == Some((BoxFamily::Border, set![Edge::Bottom])));
    assert(box_utility("border-y-*"@) == Some((BoxFamily::Border, set![Edge::Top, Edge::Bottom])));
    reveal_with_fuel(edges_of, 6);
    assert(m.0.drop_last() =~= seq!["border-t-*"@]);
    assert(m.0.drop_last().drop_last() =~= Seq::<Seq<char>>::empty());
    assert(m.1.drop_last() =~= Seq::<Seq<char>>::empty());
    assert(edges_of(m.0) =~= set![Edge::Bottom, Edge::Top]);
    assert(edges_of(m.1) =~= set![Edge::Bottom, Edge::Top]);
    assert forall|i: int| 0 <= i < m.0.len() implies (#[trigger] box_utility(m.0[i])) is Some && family_of(m.0[i]) == BoxFamily::Border by {
        if i == 0 { assert(m.0[i] == "border-t-*"@); }
        if i == 1 { assert(m.0[i] == "border-b-*"@); }
    }
    assert forall|i: int| 0 <= i < m.1.len() implies (#[trigger] box_utility(m.1[i])) is Some && family_of(m.1[i]) == BoxFamily::Border by {
        if i == 0 { assert(m.1[i] == "border-y-*"@); }
    }
    assert(family_of(m.1[0]) == BoxFamily::Border);
}

proof fn row_16()
    ensures
        covers_its_longhands(spec_shorthand_mappings()[16]),
{
    reveal_strlit("border-spacing-*");
    reveal_strlit("border-spacing-x-*");
    reveal_strlit("border-spacing-y-*");
    let m = spec_shorthand_mappings()[16];
    assert(m.0 =~= seq!["border-spacing-x-*"@, "border-spacing-y-*"@]);
    assert(m.1 =~= seq!["border-spacing-*"@]);
    assert(box_utility("border-spacing-x-*"@) is None);
    assert(box_utility("border-spacing-y-*"@) is None);
    assert(box_utility("border-spacing-*"@) is None);
    assert(!any_box(m.0)) by {
        if any_box(m.0) {
            let i = choose|i: int| 0 <= i < m.0.len() && (#[trigger] box_utility(m.0[i])) is Some;
            if i == 0 { assert(m.0[i] == "border-spacing-x-*"@); }
            if i == 1 { assert(m.0[i] == "border-spacing-y-*"@); }
        }
    }
    assert(!any_box(m.1)) by {
        if any_box(m.1) {
            let i = choose|i: int| 0 <= i < m.1.len() && (#[trigger] box_utility(m.1[i])) is Some;
            if i == 0 { assert(m.1[i] == "border-spacing-*"@); }
        }
    }
}

proof fn row_17()
    ensures
        covers_its_longhands(spec_shorthand_mappings()[17]),
{
    reveal_strlit("rounded-*");
    reveal_strlit("rounded-bl-*");
    reveal_strlit("rounded-br-*");
    reveal_strlit("rounded-tl-*");
    reveal_strlit("rounded-tr-*");
    let m = spec_shorthand_mappings()[17];
    assert(m.0 =~= seq!["rounded-tl-*"@, "rounded-tr-*"@, "rounded-bl-*"@, "rounded-br-*"@]);
    assert(m.1 =~= seq!["rounded-*"@]);
    assert(box_utility("rounded-tl-*"@) == Some((BoxFamily::Radius, set![Edge::TopLeft])));
    assert(box_utility("rounded-tr-*"@) == Some((BoxFamily::Radius, set![Edge::TopRight])));
    assert(box_utility("rounded-bl-*"@) == Some((BoxFamily::Radius, set![Edge::BottomLeft])));
    assert(box_utility("rounded-br-*"@) == Some((BoxFamily::Radius, set![Edge::BottomRight])));
    assert(box_utility("rounded-*"@) == Some((BoxFamily::Radius, set![Edge::TopLeft, Edge::TopRight, Edge::BottomLeft, Edge::BottomRight])));
    reveal_with_fuel(edges_of, 6);
    assert(m.0.drop_last() =~= seq!["rounded-tl-*"@, "rounded-tr-*"@, "rounded-bl-*"@]);
    assert(m.0.drop_last().drop_last() =~= seq!["rounded-tl-*"@, "rounded-tr-*"@]);
    assert(m.0.drop_last().drop_last().drop_last() =~= seq!["rounded-tl-*"@]);
    assert(m.0.drop_last().drop_last().drop_last().drop_last() =~= Seq::<Seq<char>>::empty());
    assert(m.1.drop_last() =~= Seq::<Seq<char>>::empty());
    assert(edges_of(m.0) =~= set![Edge::BottomLeft, Edge::BottomRight, Edge::TopLeft, Edge::TopRight]);
    assert(edges_of(m.1) =~= set![Edge::BottomLeft, Edge::BottomRight, Edge::TopLeft, Edge::TopRight]);
    assert forall|i: int| 0 <= i < m.0.len() implies (#[trigger] box_utility(m.0[i])) is Some && family_of(m.0[i]) == BoxFamily::Radius by {
        if i == 0 { assert(m.0[i] == "rounded-tl-*"@); }
        if i == 1 { assert(m.0[i] == "rounded-tr-*"@); }
        if i == 2 { assert(m.0[i] == "rounded-bl-*"@); }
        if i == 3 { assert(m.0[i] == "rounded-br-*"@); }
    }
    assert forall|i: int| 0 <= i < m.1.len() implies (#[trigger] box_utility(m.1[i])) is Some && family_of(m.1[i]) == BoxFamily::Radius by {
        if i == 0 { assert(m.1[i] == "rounded-*"@); }
    }
    assert(family_of(m.1[0]) == BoxFamily::Radius);
}

proof fn row_18()
    ensures
        covers_its_longhands(spec_shorthand_mappings()[18]),
{
    reveal_strlit("rounded-*");
    reveal_strlit("rounded-b-*");
    reveal_strlit("rounded-t-*");
    let m = spec_shorthand_mappings()[18];
    assert(m.0 =~= seq!["rounded-t-*"@, "rounded-b-*"@]);
    assert(m.1 =~= seq!["rounded-*"@]);
    assert(box_utility("rounded-t-*"@) == Some((BoxFamily::Radius, set![Edge::TopLeft, Edge::TopRight])));
    assert(box_utility("rounded-b-*"@) == Some((BoxFamily::Radius, set![Edge::BottomLeft, Edge::BottomRight])));
    assert(box_utility("rounded-*"@) == Some((BoxFamily::Radius, set![Edge::TopLeft, Edge::TopRight, Edge::BottomLeft, Edge::BottomRight])));
    reveal_with_fuel(edges_of, 6);
    assert(m.0.drop_last() =~= seq!["rounded-t-*"@]);
    assert(m.0.drop_last().drop_last() =~= Seq::<Seq<char>>::empty());
    assert(m.1.drop_last() =~= Seq::<Seq<char>>::empty());
    assert(edges_of(m.0) =~= set![Edge::BottomLeft, Edge::BottomRight, Edge::TopLeft, Edge::TopRight]);
    assert(edges_of(m.1) =~= set![Edge::BottomLeft, Edge::BottomRight, Edge::TopLeft, Edge::TopRight]);
    assert forall|i: int| 0 <= i < m.0.len() implies (#[trigger] box_utility(m.0[i])) is Some && family_of(m.0[i]) == BoxFamily::Radius by {
        if i == 0 { assert(m.0[i] == "rounded-t-*"@); }
        if i == 1 { assert(m.0[i] == "rounded-b-*"@); }
    }
    assert forall|i: int| 0 <= i < m.1.len() implies (#[trigger] box_utility(m.1[i])) is Some && family_of(m.1[i]) == BoxFamily::Radius by {
        if i == 0 { assert(m.1[i] == "rounded-*"@); }
    }
    assert(family_of(m.1[0]) == BoxFamily::Radius);
}

proof fn row_19()
    ensures
        covers_its_longhands(spec_shorthand_mappings()[19]),
{
    reveal_strlit("rounded-*");
    reveal_strlit("rounded-l-*");
    reveal_strlit("rounded-r-*");
    let m = spec_shorthand_mappings()[19];
    assert(m.0 =~= seq!["rounded-l-*"@, "rounded-r-*"@]);
    assert(m.1 =~= seq!["rounded-*"@]);
    assert(box_utility("rounded-l-*"@) == Some((BoxFamily::Radius, set![Edge::TopLeft, Edge::BottomLeft])));
    assert(box_utility("rounded-r-*"@) == Some((BoxFamily::Radius, set![Edge::TopRight, Edge::BottomRight])));
    assert(box_utility("rounded-*"@) == Some((BoxFamily::Radius, set![Edge::TopLeft, Edge::TopRight, Edge::BottomLeft, Edge::BottomRight])));
    reveal_with_fuel(edges_of, 6);
    assert(m.0.drop_last() =~= seq!["rounded-l-*"@]);
    assert(m.0.drop_last().drop_last() =~= Seq::<Seq<char>>::empty());
    assert(m.1.drop_last() =~= Seq::<Seq<char>>::empty());
    assert(edges_of(m.0) =~= set![Edge::BottomLeft, Edge::BottomRight, Edge::TopLeft, Edge::TopRight]);
    assert(edges_of(m.1) =~= set![Edge::BottomLeft, Edge::BottomRight, Edge::TopLeft, Edge::TopRight]);
    assert forall|i: int| 0 <= i < m.0.len() implies (#[trigger] box_utility(m.0[i])) is Some && family_of(m.0[i]) == BoxFamily::Radius by {
        if i == 0 { assert(m.0[i] == "rounded-l-*"@); }
        if i == 1 { assert(m.0[i] == "rounded-r-*"@); }
    }
    assert forall|i: int| 0 <= i < m.1.len() implies (#[trigger] box_utility(m.1[i])) is Some && family_of(m.1[i]) == BoxFamily::Radius by {
        if i == 0 { assert(m.1[i] == "rounded-*"@); }
    }
    assert(family_of(m.1[0]) == BoxFamily::Radius);
}

proof fn row_20()
    ensures
        covers_its_longhands(spec_shorthand_mappings()[20]),
{
    reveal_strlit("rounded-t-*");
    reveal_strlit("rounded-tl-*");
    reveal_strlit("rounded-tr-*");
    let m = spec_shorthand_mappings()[20];
    assert(m.0 =~= seq!["rounded-tl-*"@, "rounded-tr-*"@]);
    assert(m.1 =~= seq!["rounded-t-*"@]);
    assert(box_utility("rounded-tl-*"@) == Some((BoxFamily::Radius, set![Edge::TopLeft])));
    assert(box_utility("rounded-tr-*"@) == Some((BoxFamily::Radius, set![Edge::TopRight])));
    assert(box_utility("rounded-t-*"@) == Some((BoxFamily::Radius, set![Edge::TopLeft, Edge::TopRight])));
    reveal_with_fuel(edges_of, 6);
    assert(m.0.drop_last() =~= seq!["rounded-tl-*"@]);
    assert(m.0.drop_last().drop_last() =~= Seq::<Seq<char>>::empty());
    assert(m.1.drop_last() =~= Seq::<Seq<char>>::empty());
    assert(edges_of(m.0) =~= set![Edge::TopLeft, Edge::TopRight]);
    assert(edges_of(m.1) =~= set![Edge::TopLeft, Edge::TopRight]);
    assert forall|i: int| 0 <= i < m.0.len() implies (#[trigger] box_utility(m.0[i])) is Some && family_of(m.0[i]) == BoxFamily::Radius by {
        if i == 0 { assert(m.0[i] == "rounded-tl-*"@); }
        if i == 1 { assert(m.0[i] == "rounded-tr-*"@); }
    }
    assert forall|i: int| 0 <= i < m.1.len() implies (#[trigger] box_utility(m.1[i])) is Some && family_of(m.1[i]) == BoxFamily::Radius by {
        if i == 0 { assert(m.1[i] == "rounded-t-*"@); }
    }
    assert(family_of(m.1[0]) == BoxFamily::Radius);
}

proof fn row_21()
    ensures
        covers_its_longhands(spec_shorthand_mappings()[21]),
{
    reveal_strlit("rounded-b-*");
    reveal_strlit("rounded-bl-*");
    reveal_strlit("rounded-br-*");
    let m = spec_shorthand_mappings()[21];
    assert(m.0 =~= seq!["rounded-bl-*"@, "rounded-br-*"@]);
    assert(m.1 =~= seq!["rounded-b-*"@]);
    assert(box_utility("rounded-bl-*"@) == Some((BoxFamily::Radius, set![Edge::BottomLeft])));
    assert(box_utility("rounded-br-*"@) == Some((BoxFamily::Radius, set![Edge::BottomRight])));
    assert(box_utility("rounded-b-*"@) == Some((BoxFamily::Radius, set![Edge::BottomLeft, Edge::BottomRight])));
    reveal_with_fuel(edges_of, 6);
    assert(m.0.drop_last() =~= seq!["rounded-bl-*"@]);
    assert(m.0.drop_last().drop_last() =~= Seq::<Seq<char>>::empty());
    assert(m.1.drop_last() =~= Seq::<Seq<char>>::empty());
    assert(edges_of(m.0) =~= set![Edge::BottomLeft, Edge::BottomRight]);
    assert(edges_of(m.1) =~= set![Edge::BottomLeft, Edge::BottomRight]);
    assert forall|i: int| 0 <= i < m.0.len() implies (#[trigger] box_utility(m.0[i])) is Some && family_of(m.0[i]) == BoxFamily::Radius by {
        if i == 0 { assert(m.0[i] == "rounded-bl-*"@); }
        if i == 1 { assert(m.0[i] == "rounded-br-*"@); }
    }
    assert forall|i: int| 0 <= i < m.1.len() implies (#[trigger] box_utility(m.1[i])) is Some && family_of(m.1[i]) == BoxFamily::Radius by {
        if i == 0 { assert(m.1[i] == "rounded-b-*"@); }
    }
    assert(family_of(m.1[0]) == BoxFamily::Radius);
}

proof fn row_22()
    ensures
        covers_its_longhands(spec_shorthand_mappings()[22]),
{
    reveal_strlit("rounded-bl-*");
    reveal_strlit("rounded-l-*");
    reveal_strlit("rounded-tl-*");
    let m = spec_shorthand_mappings()[22];
    assert(m.0 =~= seq!["rounded-tl-*"@, "rounded-bl-*"@]);
    assert(m.1 =~= seq!["rounded-l-*"@]);
    assert(box_utility("rounded-tl-*"@) == Some((BoxFamily::Radius, set![Edge::TopLeft])));
    assert(box_utility("rounded-bl-*"@) == Some((BoxFamily::Radius, set![Edge::BottomLeft])));
    assert(box_utility("rounded-l-*"@) == Some((BoxFamily::Radius, set![Edge::TopLeft, Edge::BottomLeft])));
    reveal_with_fuel(edges_of, 6);
    assert(m.0.drop_last() =~= seq!["rounded-tl-*"@]);
    assert(m.0.drop_last().drop_last() =~= Seq::<Seq<char>>::empty());
    assert(m.1.drop_last() =~= Seq::<Seq<char>>::empty());
    assert(edges_of(m.0) =~= set![Edge::BottomLeft, Edge::TopLeft]);
    assert(edges_of(m.1) =~= set![Edge::BottomLeft, Edge::TopLeft]);
    assert forall|i: int| 0 <= i < m.0.len() implies (#[trigger] box_utility(m.0[i])) is Some && family_of(m.0[i]) == BoxFamily::Radius by {
        if i == 0 { assert(m.0[i] == "rounded-tl-*"@); }
        if i == 1 { assert(m.0[i] == "rounded-bl-*"@); }
    }
    assert forall|i: int| 0 <= i < m.1.len() implies (#[trigger] box_utility(m.1[i])) is Some && family_of(m.1[i]) == BoxFamily::Radius by {
        if i == 0 { assert(m.1[i] == "rounded-l-*"@); }
    }
    assert(family_of(m.1[0]) == BoxFamily::Radius);
}

proof fn row_23()
    ensures
        covers_its_longhands(spec_shorthand_mappings()[23]),
{
    reveal_strlit("rounded-br-*");
    reveal_strlit("rounded-r-*");
    reveal_strlit("rounded-tr-*");
    let m = spec_shorthand_mappings()[23];
    assert(m.0 =~= seq!["rounded-tr-*"@, "rounded-br-*"@]);
    assert(m.1 =~= seq!["rounded-r-*"@]);
    assert(box_utility("rounded-tr-*"@) == Some((BoxFamily::Radius, set![Edge::TopRight])));
    assert(box_utility("rounded-br-*"@) == Some((BoxFamily::Radius, set![Edge::BottomRight])));
    assert(box_utility("rounded-r-*"@) == Some((BoxFamily::Radius, set![Edge::TopRight, Edge::BottomRight])));
    reveal_with_fuel(edges_of, 6);
    assert(m.0.drop_last() =~= seq!["rounded-tr-*"@]);
    assert(m.0.drop_last().drop_last() =~= Seq::<Seq<char>>::empty());
    assert(m.1.drop_last() =~= Seq::<Seq<char>>::empty());
    assert(edges_of(m.0) =~= set![Edge::BottomRight, Edge::TopRight]);
    assert(edges_of(m.1) =~= set![Edge::BottomRight, Edge::TopRight]);
    assert forall|i: int| 0 <= i < m.0.len() implies (#[trigger] box_utility(m.0[i])) is Some && family_of(m.0[i]) == BoxFamily::Radius by {
        if i == 0 { assert(m.0[i] == "rounded-tr-*"@); }
        if i == 1 { assert(m.0[i] == "rounded-br-*"@); }
    }
    assert forall|i: int| 0 <= i < m.1.len() implies (#[trigger] box_utility(m.1[i])) is Some && family_of(m.1[i]) == BoxFamily::Radius by {
        if i == 0 { assert(m.1[i] == "rounded-r-*"@); }
    }
    assert(family_of(m.1[0]) == BoxFamily::Radius);
}

proof fn row_24()
    ensures
        covers_its_longhands(spec_shorthand_mappings()[24]),
{
    reveal_strlit("scroll-m-*");
    reveal_strlit("scroll-mb-*");
    reveal_strlit("scroll-ml-*");
    reveal_strlit("scroll-mr-*");
    reveal_strlit("scroll-mt-*");
    let m = spec_shorthand_mappings()[24];
    assert(m.0 =~= seq!["scroll-mt-*"@, "scroll-mb-*"@, "scroll-ml-*"@, "scroll-mr-*"@]);
    assert(m.1 =~= seq!["scroll-m-*"@]);
    assert(box_utility("scroll-mt-*"@) == Some((BoxFamily::ScrollMargin, set![Edge::Top])));
    assert(box_utility("scroll-mb-*"@) == Some((BoxFamily::ScrollMargin, set![Edge::Bottom])));
    assert(box_utility("scroll-ml-*"@) == Some((BoxFamily::ScrollMargin, set![Edge::Left])));
    assert(box_utility("scroll-mr-*"@) == Some((BoxFamily::ScrollMargin, set![Edge::Right])));
    assert(box_utility("scroll-m-*"@) == Some((BoxFamily::ScrollMargin, set![Edge::Top, Edge::Right, Edge::Bottom, Edge::Left])));
    reveal_with_fuel(edges_of, 6);
    assert(m.0.drop_last() =~= seq!["scroll-mt-*"@, "scroll-mb-*"@, "scroll-ml-*"@]);
    assert(m.0.drop_last().drop_last() =~= seq!["scroll-mt-*"@, "scroll-mb-*"@]);
    assert(m.0.drop_last().drop_last().drop_last() =~= seq!["scroll-mt-*"@]);
    assert(m.0.drop_last().drop_last().drop_last().drop_last() =~= Seq::<Seq<char>>::empty());
    assert(m.1.drop_last() =~= Seq::<Seq<char>>::empty());
    assert(edges_of(m.0) =~= set![Edge::Bottom, Edge::Left, Edge::Right, Edge::Top]);
    assert(edges_of(m.1) =~= set![Edge::Bottom, Edge::Left, Edge::Right, Edge::Top]);
    assert forall|i: int| 0 <= i < m.0.len() implies (#[trigger] box_utility(m.0[i])) is Some && family_of(m.0[i]) == BoxFamily::ScrollMargin by {
        if i == 0 { assert(m.0[i] == "scroll-mt-*"@); }
        if i == 1 { assert(m.0[i] == "scroll-mb-*"@); }
        if i == 2 { assert(m.0[i] == "scroll-ml-*"@); }
        if i == 3 { assert(m.0[i] == "scroll-mr-*"@); }
    }
    assert forall|i: int| 0 <= i < m.1.len() implies (#[trigger] box_utility(m.1[i])) is Some && family_of(m.1[i]) == BoxFamily::ScrollMargin by {
        if i == 0 { assert(m.1[i] == "scroll-m-*"@); }
    }
    assert(family_of(m.1[0]) == BoxFamily::ScrollMargin);
}

proof fn row_25()
    ensures
        covers_its_longhands(spec_shorthand_mappings()[25]),
{
    reveal_strlit("scroll-m-*");
    reveal_strlit("scroll-mx-*");
    reveal_strlit("scroll-my-*");
    let m = spec_shorthand_mappings()[25];
    assert(m.0 =~= seq!["scroll-mx-*"@, "scroll-my-*"@]);
    assert(m.1 =~= seq!["scroll-m-*"@]);
    assert(box_utility("scroll-mx-*"@) == Some((BoxFamily::ScrollMargin, set![Edge::Left, Edge::Right])));
    assert(box_utility("scroll-my-*"@) == Some((BoxFamily::ScrollMargin, set![Edge::Top, Edge::Bottom])));
    assert(box_utility("scroll-m-*"@) == Some((BoxFamily::ScrollMargin, set![Edge::Top, Edge::Right, Edge::Bottom, Edge::Left])));
    reveal_with_fuel(edges_of, 6);
    assert(m.0.drop_last() =~= seq!["scroll-mx-*"@]);
    assert(m.0.drop_last().drop_last() =~= Seq::<Seq<char>>::empty());
    assert(m.1.drop_last() =~= Seq::<Seq<char>>::empty());
    assert(edges_of(m.0) =~= set![Edge::Bottom, Edge::Left, Edge::Right, Edge::Top]);
    assert(edges_of(m.1) =~= set![Edge::Bottom, Edge::Left, Edge::Right, Edge::Top]);
    assert forall|i: int| 0 <= i < m.0.len() implies (#[trigger] box_utility(m.0[i])) is Some && family_of(m.0[i]) == BoxFamily::ScrollMargin by {
        if i == 0 { assert(m.0[i] == "scroll-mx-*"@); }
        if i == 1 { assert(m.0[i] == "scroll-my-*"@); }
    }
    assert forall|i: int| 0 <= i < m.1.len() implies (#[trigger] box_utility(m.1[i])) is Some && family_of(m.1[i]) == BoxFamily::ScrollMargin by {
        if i == 0 { assert(m.1[i] == "scroll-m-*"@); }
    }
    assert(family_of(m.1[0]) == BoxFamily::ScrollMargin);
}

proof fn row_26()
    ensures
        covers_its_longhands(spec_shorthand_mappings()[26]),
{
    reveal_strlit("scroll-me-*");
    reveal_strlit("scroll-ms-*");
    reveal_strlit("scroll-mx-*");
    let m = spec_shorthand_mappings()[26];
    assert(m.0 =~= seq!["scroll-ms-*"@, "scroll-me-*"@]);
    assert(m.1 =~= seq!["scroll-mx-*"@]);
    assert(box_utility("scroll-ms-*"@) == Some((BoxFamily::ScrollMargin, set![Edge::Left])));
    assert(box_utility("scroll-me-*"@) == Some((BoxFamily::ScrollMargin, set![Edge::Right])));
    assert(box_utility("scroll-mx-*"@) == Some((BoxFamily::ScrollMargin, set![Edge::Left, Edge::Right])));
    reveal_with_fuel(edges_of, 6);
    assert(m.0.drop_last() =~= seq!["scroll-ms-*"@]);
    assert(m.0.drop_last().drop_last() =~= Seq::<Seq<char>>::empty());
    assert(m.1.drop_last() =~= Seq::<Seq<char>>::empty());
    assert(edges_of(m.0) =~= set![Edge::Left, Edge::Right]);
    assert(edges_of(m.1) =~= set![Edge::Left, Edge::Right]);
    assert forall|i: int| 0 <= i < m.0.len() implies (#[trigger] box_utility(m.0[i])) is Some && family_of(m.0[i]) == BoxFamily::ScrollMargin by {
        if i == 0 { assert(m.0[i] == "scroll-ms-*"@); }
        if i == 1 { assert(m.0[i] == "scroll-me-*"@); }
    }
    assert forall|i: int| 0 <= i < m.1.len() implies (#[trigger] box_utility(m.1[i])) is Some && family_of(m.1[i]) == BoxFamily::ScrollMargin by {
        if i == 0 { assert(m.1[i] == "scroll-mx-*"@); }
    }
    assert(family_of(m.1[0]) == BoxFamily::ScrollMargin);
}

proof fn row_27()
    ensures
        covers_its_longhands(spec_shorthand_mappings()[27]),
{
    reveal_strlit("scroll-ml-*");
    reveal_strlit("scroll-mr-*");
    reveal_strlit("scroll-mx-*");
    let m = spec_shorthand_mappings()[27];
    assert(m.0 =~= seq!["scroll-ml-*"@, "scroll-mr-*"@]);
    assert(m.1 =~= seq!["scroll-mx-*"@]);
    assert(box_utility("scroll-ml-*"@) == Some((BoxFamily::ScrollMargin, set![Edge::Left])));
    assert(box_utility("scroll-mr-*"@) == Some((BoxFamily::ScrollMargin, set![Edge::Right])));
    assert(box_utility("scroll-mx-*"@) == Some((BoxFamily::ScrollMargin, set![Edge::Left, Edge::Right])));
    reveal_with_fuel(edges_of, 6);
    assert(m.0.drop_last() =~= seq!["scroll-ml-*"@]);
    assert(m.0.drop_last().drop_last() =~= Seq::<Seq<char>>::empty());
    assert(m.1.drop_last() =~= Seq::<Seq<char>>::empty());
    assert(edges_of(m.0) =~= set![Edge::Left, Edge::Right]);
    assert(edges_of(m.1) =~= set![Edge::Left, Edge::Right]);
    assert forall|i: int| 0 <= i < m.0.len() implies (#[trigger] box_utility(m.0[i])) is Some && family_of(m.0[i]) == BoxFamily::ScrollMargin by {
        if i == 0 { assert(m.0[i] == "scroll-ml-*"@); }
        if i == 1 { assert(m.0[i] == "scroll-mr-*"@); }
    }
    assert forall|i: int| 0 <= i < m.1.len() implies (#[trigger] box_utility(m.1[i])) is Some && family_of(m.1[i]) == BoxFamily::ScrollMargin by {
        if i == 0 { assert(m.1[i] == "scroll-mx-*"@); }
    }
    assert(family_of(m.1[0]) == BoxFamily::ScrollMargin);
}

proof fn row_28()
    ensures
        covers_its_longhands(spec_shorthand_mappings()[28]),
{
    reveal_strlit("scroll-mb-*");
    reveal_strlit("scroll-mt-*");
    reveal_strlit("scroll-my-*");
    let m = spec_shorthand_mappings()[28];
    assert(m.0 =~= seq!["scroll-mt-*"@, "scroll-mb-*"@]);
    assert(m.1 =~= seq!["scroll-my-*"@]);
    assert(box_utility("scroll-mt-*"@) == Some((BoxFamily::ScrollMargin, set![Edge::Top])));
    assert(box_utility("scroll-mb-*"@) == Some((BoxFamily::ScrollMargin, set![Edge::Bottom])));
    assert(box_utility("scroll-my-*"@) == Some((BoxFamily::ScrollMargin, set![Edge::Top, Edge::Bottom])));
    reveal_with_fuel(edges_of, 6);
    assert(m.0.drop_last() =~= seq!["scroll-mt-*"@]);
    assert(m.0.drop_last().drop_last() =~= Seq::<Seq<char>>::empty());
    assert(m.1.drop_last() =~= Seq::<Seq<char>>::empty());
    assert(edges_of(m.0) =~= set![Edge::Bottom, Edge::Top]);
    assert(edges_of(m.1) =~= set![Edge::Bottom, Edge::Top]);
    assert forall|i: int| 0 <= i < m.0.len() implies (#[trigger] box_utility(m.0[i])) is Some && family_of(m.0[i]) == BoxFamily::ScrollMargin by {
        if i == 0 { assert(m.0[i] == "scroll-mt-*"@); }
        if i == 1 { assert(m.0[i] == "scroll-mb-*"@); }
    }
    assert forall|i: int| 0 <= i < m.1.len() implies (#[trigger] box_utility(m.1[i])) is Some && family_of(m.1[i]) == BoxFamily::ScrollMargin by {
        if i == 0 { assert(m.1[i] == "scroll-my-*"@); }
    }
    assert(family_of(m.1[0]) == BoxFamily::ScrollMargin);
}

proof fn row_29()
    ensures
        covers_its_longhands(spec_shorthand_mappings()[29]),
{
    reveal_strlit("scroll-p-*");
    reveal_strlit("scroll-pb-*");
    reveal_strlit("scroll-pl-*");
    reveal_strlit("scroll-pr-*");
    reveal_strlit("scroll-pt-*");
    let m = spec_shorthand_mappings()[29];
    assert(m.0 =~= seq!["scroll-pt-*"@, "scroll-pb-*"@, "scroll-pl-*"@, "scroll-pr-*"@]);
    assert(m.1 =~= seq!["scroll-p-*"@]);
    assert(box_utility("scroll-pt-*"@) == Some((BoxFamily::ScrollPadding, set![Edge::Top])));
    assert(box_utility("scroll-pb-*"@) == Some((BoxFamily::ScrollPadding, set![Edge::Bottom])));
    assert(box_utility("scroll-pl-*"@) == Some((BoxFamily::ScrollPadding, set![Edge::Left])));
    assert(box_utility("scroll-pr-*"@) == Some((BoxFamily::ScrollPadding, set![Edge::Right])));
    assert(box_utility("scroll-p-*"@) == Some((BoxFamily::ScrollPadding, set![Edge::Top, Edge::Right, Edge::Bottom, Edge::Left])));
    reveal_with_fuel(edges_of, 6);
    assert(m.0.drop_last() =~= seq!["scroll-pt-*"@, "scroll-pb-*"@, "scroll-pl-*"@]);
    assert(m.0.drop_last().drop_last() =~= seq!["scroll-pt-*"@, "scroll-pb-*"@]);
    assert(m.0.drop_last().drop_last().drop_last() =~= seq!["scroll-pt-*"@]);
    assert(m.0.drop_last().drop_last().drop_last().drop_last() =~= Seq::<Seq<char>>::empty());
    assert(m.1.drop_last() =~= Seq::<Seq<char>>::empty());
    assert(edges_of(m.0) =~= set![Edge::Bottom, Edge::Left, Edge::Right, Edge::Top]);
    assert(edges_of(m.1) =~= set![Edge::Bottom, Edge::Left, Edge::Right, Edge::Top]);
    assert forall|i: int| 0 <= i < m.0.len() implies (#[trigger] box_utility(m.0[i])) is Some && family_of(m.0[i]) == BoxFamily::ScrollPadding by {
        if i == 0 { assert(m.0[i] == "scroll-pt-*"@); }
        if i == 1 { assert(m.0[i] == "scroll-pb-*"@); }
        if i == 2 { assert(m.0[i] == "scroll-pl-*"@); }
        if i == 3 { assert(m.0[i] == "scroll-pr-*"@); }
    }
    assert forall|i: int| 0 <= i < m.1.len() implies (#[trigger] box_utility(m.1[i])) is Some && family_of(m.1[i]) == BoxFamily::ScrollPadding by {
        if i == 0 { assert(m.1[i] == "scroll-p-*"@); }
    }
    assert(family_of(m.1[0]) == BoxFamily::ScrollPadding);
}

proof fn row_30()
    ensures
        covers_its_longhands(spec_shorthand_mappings()[30]),
{
    reveal_strlit("scroll-p-*");
    reveal_strlit("scroll-px-*");
    reveal_strlit("scroll-py-*");
    let m = spec_shorthand_mappings()[30];
    assert(m.0 =~= seq!["scroll-px-*"@, "scroll-py-*"@]);
    assert(m.1 =~= seq!["scroll-p-*"@]);
    assert(box_utility("scroll-px-*"@) == Some((BoxFamily::ScrollPadding, set![Edge::Left, Edge::Right])));
    assert(box_utility("scroll-py-*"@) == Some((BoxFamily::ScrollPadding, set![Edge::Top, Edge::Bottom])));
    assert(box_utility("scroll-p-*"@) == Some((BoxFamily::ScrollPadding, set![Edge::Top, Edge::Right, Edge::Bottom, Edge::Left])));
    reveal_with_fuel(edges_of, 6);
    assert(m.0.drop_last() =~= seq!["scroll-px-*"@]);
    assert(m.0.drop_last().drop_last() =~= Seq::<Seq<char>>::empty());
    assert(m.1.drop_last() =~= Seq::<Seq<char>>::empty());
    assert(edges_of(m.0) =~= set![Edge::Bottom, Edge::Left, Edge::Right, Edge::Top]);
    assert(edges_of(m.1) =~= set![Edge::Bottom, Edge::Left, Edge::Right, Edge::Top]);
    assert forall|i: int| 0 <= i < m.0.len() implies (#[trigger] box_utility(m.0[i])) is Some && family_of(m.0[i]) == BoxFamily::ScrollPadding by {
        if i == 0 { assert(m.0[i] == "scroll-px-*"@); }
        if i == 1 { assert(m.0[i] == "scroll-py-*"@); }
    }
    assert forall|i: int| 0 <= i < m.1.len() implies (#[trigger] box_utility(m.1[i])) is Some && family_of(m.1[i]) == BoxFamily::ScrollPadding by {
        if i == 0 { assert(m.1[i] == "scroll-p-*"@); }
    }
    assert(family_of(m.1[0]) == BoxFamily::ScrollPadding);
}

proof fn row_31()
    ensures
        covers_its_longhands(spec_shorthand_mappings()[31]),
{
    reveal_strlit("scroll-pl-*");
    reveal_strlit("scroll-pr-*");
    reveal_strlit("scroll-px-*");
    let m = spec_shorthand_mappings()[31];
    assert(m.0 =~= seq!["scroll-pl-*"@, "scroll-pr-*"@]);
    assert(m.1 =~= seq!["scroll-px-*"@]);
    assert(box_utility("scroll-pl-*"@) == Some((BoxFamily::ScrollPadding, set![Edge::Left])));
    assert(box_utility("scroll-pr-*"@) == Some((BoxFamily::ScrollPadding, set![Edge::Right])));
    assert(box_utility("scroll-px-*"@) == Some((BoxFamily::ScrollPadding, set![Edge::Left, Edge::Right])));
    reveal_with_fuel(edges_of, 6);
    assert(m.0.drop_last() =~= seq!["scroll-pl-*"@]);
    assert(m.0.drop_last().drop_last() =~= Seq::<Seq<char>>::empty());
    assert(m.1.drop_last() =~= Seq::<Seq<char>>::empty());
    assert(edges_of(m.0) =~= set![Edge::Left, Edge::Right]);
    assert(edges_of(m.1) =~= set![Edge::Left, Edge::Right]);
    assert forall|i: int| 0 <= i < m.0.len() implies (#[trigger] box_utility(m.0[i])) is Some && family_of(m.0[i]) == BoxFamily::ScrollPadding by {
        if i == 0 { assert(m.0[i] == "scroll-pl-*"@); }
        if i == 1 { assert(m.0[i] == "scroll-pr-*"@); }
    }
    assert forall|i: int| 0 <= i < m.1.len() implies (#[trigger] box_utility(m.1[i])) is Some && family_of(m.1[i]) == BoxFamily::ScrollPadding by {
        if i == 0 { assert(m.1[i] == "scroll-px-*"@); }
    }
    assert(family_of(m.1[0]) == BoxFamily::ScrollPadding);
}

proof fn row_32()
    ensures
        covers_its_longhands(spec_shorthand_mappings()[32]),
{
    reveal_strlit("scroll-pe-*");
    reveal_strlit("scroll-ps-*");
    reveal_strlit("scroll-px-*");
    let m = spec_shorthand_mappings()[32];
    assert(m.0 =~= seq!["scroll-ps-*"@, "scroll-pe-*"@]);
    assert(m.1 =~= seq!["scroll-px-*"@]);
    assert(box_utility("scroll-ps-*"@) == Some((BoxFamily::ScrollPadding, set![Edge::Left])));
    assert(box_utility("scroll-pe-*"@) == Some((BoxFamily::ScrollPadding, set![Edge::Right])));
    assert(box_utility("scroll-px-*"@) == Some((BoxFamily::ScrollPadding, set![Edge::Left, Edge::Right])));
    reveal_with_fuel(edges_of, 6);
    assert(m.0.drop_last() =~= seq!["scroll-ps-*"@]);
    assert(m.0.drop_last().drop_last() =~= Seq::<Seq<char>>::empty());
    assert(m.1.drop_last() =~= Seq::<Seq<char>>::empty());
    assert(edges_of(m.0) =~= set![Edge::Left, Edge::Right]);
    assert(edges_of(m.1) =~= set![Edge::Left, Edge::Right]);
    assert forall|i: int| 0 <= i < m.0.len() implies (#[trigger] box_utility(m.0[i])) is Some && family_of(m.0[i]) == BoxFamily::ScrollPadding by {
        if i == 0 { assert(m.0[i] == "scroll-ps-*"@); }
        if i == 1 { assert(m.0[i] == "scroll-pe-*"@); }
    }
    assert forall|i: int| 0 <= i < m.1.len() implies (#[trigger] box_utility(m.1[i])) is Some && family_of(m.1[i]) == BoxFamily::ScrollPadding by {
        if i == 0 { assert(m.1[i] == "scroll-px-*"@); }
    }
    assert(family_of(m.1[0]) == BoxFamily::ScrollPadding);
}

proof fn row_33()
    ensures
        covers_its_longhands(spec_shorthand_mappings()[33]),
{
    reveal_strlit("scroll-pb-*");
    reveal_strlit("scroll-pt-*");
    reveal_strlit("scroll-py-*");
    let m = spec_shorthand_mappings()[33];
    assert(m.0 =~= seq!["scroll-pt-*"@, "scroll-pb-*"@]);
    assert(m.1 =~= seq!["scroll-py-*"@]);
    assert(box_utility("scroll-pt-*"@) == Some((BoxFamily::ScrollPadding, set![Edge::Top])));
    assert(box_utility("scroll-pb-*"@) == Some((BoxFamily::ScrollPadding, set![Edge::Bottom])));
    assert(box_utility("scroll-py-*"@) == Some((BoxFamily::ScrollPadding, set![Edge::Top, Edge::Bottom])));
    reveal_with_fuel(edges_of, 6);
    assert(m.0.drop_last() =~= seq!["scroll-pt-*"@]);
    assert(m.0.drop_last().drop_last() =~= Seq::<Seq<char>>::empty());
    assert(m.1.drop_last() =~= Seq::<Seq<char>>::empty());
    assert(edges_of(m.0) =~= set![Edge::Bottom, Edge::Top]);
    assert(edges_of(m.1) =~= set![Edge::Bottom, Edge::Top]);
    assert forall|i: int| 0 <= i < m.0.len() implies (#[trigger] box_utility(m.0[i])) is Some && family_of(m.0[i]) == BoxFamily::ScrollPadding by {
        if i == 0 { assert(m.0[i] == "scroll-pt-*"@); }
        if i == 1 { assert(m.0[i] == "scroll-pb-*"@); }
    }
    assert forall|i: int| 0 <= i < m.1.len() implies (#[trigger] box_utility(m.1[i])) is Some && family_of(m.1[i]) == BoxFamily::ScrollPadding by {
        if i == 0 { assert(m.1[i] == "scroll-py-*"@); }
    }
    assert(family_of(m.1[0]) == BoxFamily::ScrollPadding);
}

proof fn row_34()
    ensures
        covers_its_longhands(spec_shorthand_mappings()[34]),
{
    reveal_strlit("bottom-*");
    reveal_strlit("inset-*");
    reveal_strlit("left-*");
    reveal_strlit("right-*");
    reveal_strlit("top-*");
    let m = spec_shorthand_mappings()[34];
    assert(m.0 =~= seq!["top-*"@, "right-*"@, "bottom-*"@, "left-*"@]);
    assert(m.1 =~= seq!["inset-*"@]);
    assert(box_utility("top-*"@) == Some((BoxFamily::Inset, set![Edge::Top])));
    assert(box_utility("right-*"@) == Some((BoxFamily::Inset, set![Edge::Right])));
    assert(box_utility("bottom-*"@) == Some((BoxFamily::Inset, set![Edge::Bottom])));
    assert(box_utility("left-*"@) == Some((BoxFamily::Inset, set![Edge::Left])));
    assert(box_utility("inset-*"@) == Some((BoxFamily::Inset, set![Edge::Top, Edge::Right, Edge::Bottom, Edge::Left])));
    reveal_with_fuel(edges_of, 6);
    assert(m.0.drop_last() =~= seq!["top-*"@, "right-*"@, "bottom-*"@]);
    assert(m.0.drop_last().drop_last() =~= seq!["top-*"@, "right-*"@]);
    assert(m.0.drop_last().drop_last().drop_last() =~= seq!["top-*"@]);
    assert(m.0.drop_last().drop_last().drop_last().drop_last() =~= Seq::<Seq<char>>::empty());
    assert(m.1.drop_last() =~= Seq::<Seq<char>>::empty());
    assert(edges_of(m.0) =~= set![Edge::Bottom, Edge::Left, Edge::Right, Edge::Top]);
    assert(edges_of(m.1) =~= set![Edge::Bottom, Edge::Left, Edge::Right, Edge::Top]);
    assert forall|i: int| 0 <= i < m.0.len() implies (#[trigger] box_utility(m.0[i])) is Some && family_of(m.0[i]) == BoxFamily::Inset by {
        if i == 0 { assert(m.0[i] == "top-*"@); }
        if i == 1 { assert(m.0[i] == "right-*"@); }
        if i == 2 { assert(m.0[i] == "bottom-*"@); }
        if i == 3 { assert(m.0[i] == "left-*"@); }
    }
    assert forall|i: int| 0 <= i < m.1.len() implies (#[trigger] box_utility(m.1[i])) is Some && family_of(m.1[i]) == BoxFamily::Inset by {
        if i == 0 { assert(m.1[i] == "inset-*"@); }
    }
    assert(family_of(m.1[0]) == BoxFamily::Inset);
}

proof fn row_35()
    ensures
        covers_its_longhands(spec_shorthand_mappings()[35]),
{
    reveal_strlit("inset-*");
    reveal_strlit("inset-x-*");
    reveal_strlit("inset-y-*");
    let m = spec_shorthand_mappings()[35];
    assert(m.0 =~= seq!["inset-x-*"@, "inset-y-*"@]);
    assert(m.1 =~= seq!["inset-*"@]);
    assert(box_utility("inset-x-*"@) == Some((BoxFamily::Inset, set![Edge::Left, Edge::Right])));
    assert(box_utility("inset-y-*"@) == Some((BoxFamily::Inset, set![Edge::Top, Edge::Bottom])));
    assert(box_utility("inset-*"@) == Some((BoxFamily::Inset, set![Edge::Top, Edge::Right, Edge::Bottom, Edge::Left])));
    reveal_with_fuel(edges_of, 6);
    assert(m.0.drop_last() =~= seq!["inset-x-*"@]);
    assert(m.0.drop_last().drop_last() =~= Seq::<Seq<char>>::empty());
    assert(m.1.drop_last() =~= Seq::<Seq<char>>::empty());
    assert(edges_of(m.0) =~= set![Edge::Bottom, Edge::Left, Edge::Right, Edge::Top]);
    assert(edges_of(m.1) =~= set![Edge::Bottom, Edge::Left, Edge::Right, Edge::Top]);
    assert forall|i: int| 0 <= i < m.0.len() implies (#[trigger] box_utility(m.0[i])) is Some && family_of(m.0[i]) == BoxFamily::Inset by {
        if i == 0 { assert(m.0[i] == "inset-x-*"@); }
        if i == 1 { assert(m.0[i] == "inset-y-*"@); }
    }
    assert forall|i: int| 0 <= i < m.1.len() implies (#[trigger] box_utility(m.1[i])) is Some && family_of(m.1[i]) == BoxFamily::Inset by {
        if i == 0 { assert(m.1[i] == "inset-*"@); }
    }
    assert(family_of(m.1[0]) == BoxFamily::Inset);
}

proof fn row_36()
    ensures
        covers_its_longhands(spec_shorthand_mappings()[36]),
{
    reveal_strlit("divide-*");
    reveal_strlit("divide-x-*");
    reveal_strlit("divide-y-*");
    let m = spec_shorthand_mappings()[36];
    assert(m.0 =~= seq!["divide-x-*"@, "divide-y-*"@]);
    assert(m.1 =~= seq!["divide-*"@]);
    assert(box_utility("divide-x-*"@) is None);
    assert(box_utility("divide-y-*"@) is None);
    assert(box_utility("divide-*"@) is None);
    assert(!any_box(m.0)) by {
        if any_box(m.0) {
            let i = choose|i: int| 0 <= i < m.0.len() && (#[trigger] box_utility(m.0[i])) is Some;
            if i == 0 { assert(m.0[i] == "divide-x-*"@); }
            if i == 1 { assert(m.0[i] == "divide-y-*"@); }
        }
    }
    assert(!any_box(m.1)) by {
        if any_box(m.1) {
            let i = choose|i: int| 0 <= i < m.1.len() && (#[trigger] box_utility(m.1[i])) is Some;
            if i == 0 { assert(m.1[i] == "divide-*"@); }
        }
    }
}

proof fn row_37()
    ensures
        covers_its_longhands(spec_shorthand_mappings()[37]),
{
    reveal_strlit("space-*");
    reveal_strlit("space-x-*");
    reveal_strlit("space-y-*");
    let m = spec_shorthand_mappings()[37];
    assert(m.0 =~= seq!["space-x-*"@, "space-y-*"@]);
    assert(m.1 =~= seq!["space-*"@]);
    assert(box_utility("space-x-*"@) is None);
    assert(box_utility("space-y-*"@) is None);
    assert(box_utility("space-*"@) is None);
    assert(!any_box(m.0)) by {
        if any_box(m.0) {
            let i = choose|i: int| 0 <= i < m.0.len() && (#[trigger] box_utility(m.0[i])) is Some;
            if i == 0 { assert(m.0[i] == "space-x-*"@); }
            if i == 1 { assert(m.0[i] == "space-y-*"@); }
        }
    }
    assert(!any_box(m.1)) by {
        if any_box(m.1) {
            let i = choose|i: int| 0 <= i < m.1.len() && (#[trigger] box_utility(m.1[i])) is Some;
            if i == 0 { assert(m.1[i] == "space-*"@); }
        }
    }
}

proof fn row_38()
    ensures
        covers_its_longhands(spec_shorthand_mappings()[38]),
{
    reveal_strlit("gap-*");
    reveal_strlit("gap-x-*");
    reveal_strlit("gap-y-*");
    let m = spec_shorthand_mappings()[38];
    assert(m.0 =~= seq!["gap-x-*"@, "gap-y-*"@]);
    assert(m.1 =~= seq!["gap-*"@]);
    assert(box_utility("gap-x-*"@) is None);
    assert(box_utility("gap-y-*"@) is None);
    assert(box_utility("gap-*"@) is None);
    assert(!any_box(m.0)) by {
        if any_box(m.0) {
            let i = choose|i: int| 0 <= i < m.0.len() && (#[trigger] box_utility(m.0[i])) is Some;
            if i == 0 { assert(m.0[i] == "gap-x-*"@); }
            if i == 1 { assert(m.0[i] == "gap-y-*"@); }
        }
    }
    assert(!any_box(m.1)) by {
        if any_box(m.1) {
            let i = choose|i: int| 0 <= i < m.1.len() && (#[trigger] box_utility(m.1[i])) is Some;
            if i == 0 { assert(m.1[i] == "gap-*"@); }
        }
    }
}

proof fn row_39()
    ensures
        covers_its_longhands(spec_shorthand_mappings()[39]),
{
    reveal_strlit("translate-*");
    reveal_strlit("translate-x-*");
    reveal_strlit("translate-y-*");
    let m = spec_shorthand_mappings()[39];
    assert(m.0 =~= seq!["translate-x-*"@, "translate-y-*"@]);
    assert(m.1 =~= seq!["translate-*"@]);
    assert(box_utility("translate-x-*"@) is None);
    assert(box_utility("translate-y-*"@) is None);
    assert(box_utility("translate-*"@) is None);
    assert(!any_box(m.0)) by {
        if any_box(m.0) {
            let i = choose|i: int| 0 <= i < m.0.len() && (#[trigger] box_utility(m.0[i])) is Some;
            if i == 0 { assert(m.0[i] == "translate-x-*"@); }
            if i == 1 { assert(m.0[i] == "translate-y-*"@); }
        }
    }
    assert(!any_box(m.1)) by {
        if any_box(m.1) {
            let i = choose|i: int| 0 <= i < m.1.len() && (#[trigger] box_utility(m.1[i])) is Some;
            if i == 0 { assert(m.1[i] == "translate-*"@); }
        }
    }
}

proof fn row_40()
    ensures
        covers_its_longhands(spec_shorthand_mappings()[40]),
{
    reveal_strlit("rotate-*");
    reveal_strlit("rotate-x-*");
    reveal_strlit("rotate-y-*");
    let m = spec_shorthand_mappings()[40];
    assert(m.0 =~= seq!["rotate-x-*"@, "rotate-y-*"@]);
    assert(m.1 =~= seq!["rotate-*"@]);
    assert(box_utility("rotate-x-*"@) is None);
    assert(box_utility("rotate-y-*"@) is None);
    assert(box_utility("rotate-*"@) is None);
    assert(!any_box(m.0)) by {
        if any_box(m.0) {
            let i = choose|i: int| 0 <= i < m.0.len() && (#[trigger] box_utility(m.0[i])) is Some;
            if i == 0 { assert(m.0[i] == "rotate-x-*"@); }
            if i == 1 { assert(m.0[i] == "rotate-y-*"@); }
        }
    }
    assert(!any_box(m.1)) by {
        if any_box(m.1) {
            let i = choose|i: int| 0 <= i < m.1.len() && (#[trigger] box_utility(m.1[i])) is Some;
            if i == 0 { assert(m.1[i] == "rotate-*"@); }
        }
    }
}

proof fn row_41()
    ensures
        covers_its_longhands(spec_shorthand_mappings()[41]),
{
    reveal_strlit("skew-*");
    reveal_strlit("skew-x-*");
    reveal_strlit("skew-y-*");
    let m = spec_shorthand_mappings()[41];
    assert(m.0 =~= seq!["skew-x-*"@, "skew-y-*"@]);
    assert(m.1 =~= seq!["skew-*"@]);
    assert(box_utility("skew-x-*"@) is None);
    assert(box_utility("skew-y-*"@) is None);
    assert(box_utility("skew-*"@) is None);
    assert(!any_box(m.0)) by {
        if any_box(m.0) {
            let i = choose|i: int| 0 <= i < m.0.len() && (#[trigger] box_utility(m.0[i])) is Some;
            if i == 0 { assert(m.0[i] == "skew-x-*"@); }
            if i == 1 { assert(m.0[i] == "skew-y-*"@); }
        }
    }
    assert(!any_box(m.1)) by {
        if any_box(m.1) {
            let i = choose|i: int| 0 <= i < m.1.len() && (#[trigger] box_utility(m.1[i])) is Some;
            if i == 0 { assert(m.1[i] == "skew-*"@); }
        }
    }
}

proof fn row_42()
    ensures
        covers_its_longhands(spec_shorthand_mappings()[42]),
{
    reveal_strlit("scale-*");
    reveal_strlit("scale-3d");
    reveal_strlit("scale-x-*");
    reveal_strlit("scale-y-*");
    reveal_strlit("scale-z-*");
    let m = spec_shorthand_mappings()[42];
    assert(m.0 =~= seq!["scale-x-*"@, "scale-y-*"@, "scale-z-*"@]);
    assert(m.1 =~= seq!["scale-*"@, "scale-3d"@]);
    assert(box_utility("scale-x-*"@) is None);
    assert(box_utility("scale-y-*"@) is None);
    assert(box_utility("scale-z-*"@) is None);
    assert(box_utility("scale-*"@) is None);
    assert(box_utility("scale-3d"@) is None);
    assert(!any_box(m.0)) by {
        if any_box(m.0) {
            let i = choose|i: int| 0 <= i < m.0.len() && (#[trigger] box_utility(m.0[i])) is Some;
            if i == 0 { assert(m.0[i] == "scale-x-*"@); }
            if i == 1 { assert(m.0[i] == "scale-y-*"@); }
            if i == 2 { assert(m.0[i] == "scale-z-*"@); }
        }
    }
    assert(!any_box(m.1)) by {
        if any_box(m.1) {
            let i = choose|i: int| 0 <= i < m.1.len() && (#[trigger] box_utility(m.1[i])) is Some;
            if i == 0 { assert(m.1[i] == "scale-*"@); }
            if i == 1 { assert(m.1[i] == "scale-3d"@); }
        }
    }
}

proof fn row_43()
    ensures
        covers_its_longhands(spec_shorthand_mappings()[43]),
{
    reveal_strlit("scale-*");
    reveal_strlit("scale-x-*");
    reveal_strlit("scale-y-*");
    let m = spec_shorthand_mappings()[43];
    assert(m.0 =~= seq!["scale-x-*"@, "scale-y-*"@]);
    assert(m.1 =~= seq!["scale-*"@]);
    assert(box_utility("scale-x-*"@) is None);
    assert(box_utility("scale-y-*"@) is None);
    assert(box_utility("scale-*"@) is None);
    assert(!any_box(m.0)) by {
        if any_box(m.0) {
            let i = choose|i: int| 0 <= i < m.0.len() && (#[trigger] box_utility(m.0[i])) is Some;
            if i == 0 { assert(m.0[i] == "scale-x-*"@); }
            if i == 1 { assert(m.0[i] == "scale-y-*"@); }
        }
    }
    assert(!any_box(m.1)) by {
        if any_box(m.1) {
            let i = choose|i: int| 0 <= i < m.1.len() && (#[trigger] box_utility(m.1[i])) is Some;
            if i == 0 { assert(m.1[i] == "scale-*"@); }
        }
    }
}

proof fn row_44()
    ensures
        covers_its_longhands(spec_shorthand_mappings()[44]),
{
    reveal_strlit("content-*");
    reveal_strlit("justify-content-*");
    reveal_strlit("place-content-*");
    let m = spec_shorthand_mappings()[44];
    assert(m.0 =~= seq!["content-*"@, "justify-content-*"@]);
    assert(m.1 =~= seq!["place-content-*"@]);
    assert(box_utility("content-*"@) is None);
    assert(box_utility("justify-content-*"@) is None);
    assert(box_utility("place-content-*"@) is None);
    assert(!any_box(m.0)) by {
        if any_box(m.0) {
            let i = choose|i: int| 0 <= i < m.0.len() && (#[trigger] box_utility(m.0[i])) is Some;
            if i == 0 { assert(m.0[i] == "content-*"@); }
            if i == 1 { assert(m.0[i] == "justify-content-*"@); }
        }
    }
    assert(!any_box(m.1)) by {
        if any_box(m.1) {
            let i = choose|i: int| 0 <= i < m.1.len() && (#[trigger] box_utility(m.1[i])) is Some;
            if i == 0 { assert(m.1[i] == "place-content-*"@); }
        }
    }
}

proof fn row_45()
    ensures
        covers_its_longhands(spec_shorthand_mappings()[45]),
{
    reveal_strlit("items-*");
    reveal_strlit("justify-items-*");
    reveal_strlit("place-items-*");
    let m = spec_shorthand_mappings()[45];
    assert(m.0 =~= seq!["items-*"@, "justify-items-*"@]);
    assert(m.1 =~= seq!["place-items-*"@]);
    assert(box_utility("items-*"@) is None);
    assert(box_utility("justify-items-*"@) is None);
    assert(box_utility("place-items-*"@) is None);
    assert(!any_box(m.0)) by {
        if any_box(m.0) {
            let i = choose|i: int| 0 <= i < m.0.len() && (#[trigger] box_utility(m.0[i])) is Some;
            if i == 0 { assert(m.0[i] == "items-*"@); }
            if i == 1 { assert(m.0[i] == "justify-items-*"@); }
        }
    }
    assert(!any_box(m.1)) by {
        if any_box(m.1) {
            let i = choose|i: int| 0 <= i < m.1.len() && (#[trigger] box_utility(m.1[i])) is Some;
            if i == 0 { assert(m.1[i] == "place-items-*"@); }
        }
    }
}

proof fn row_46()
    ensures
        covers_its_longhands(spec_shorthand_mappings()[46]),
{
    reveal_strlit("justify-self-*");
    reveal_strlit("place-self-*");
    reveal_strlit("self-*");
    let m = spec_shorthand_mappings()[46];
    assert(m.0 =~= seq!["self-*"@, "justify-self-*"@]);
    assert(m.1 =~= seq!["place-self-*"@]);
    assert(box_utility("self-*"@) is None);
    assert(box_utility("justify-self-*"@) is None);
    assert(box_utility("place-self-*"@) is None);
    assert(!any_box(m.0)) by {
        if any_box(m.0) {
            let i = choose|i: int| 0 <= i < m.0.len() && (#[trigger] box_utility(m.0[i])) is Some;
            if i == 0 { assert(m.0[i] == "self-*"@); }
            if i == 1 { assert(m.0[i] == "justify-self-*"@); }
        }
    }
    assert(!any_box(m.1)) by {
        if any_box(m.1) {
            let i = choose|i: int| 0 <= i < m.1.len() && (#[trigger] box_utility(m.1[i])) is Some;
            if i == 0 { assert(m.1[i] == "place-self-*"@); }
        }
    }
}

proof fn row_47()
    ensures
        covers_its_longhands(spec_shorthand_mappings()[47]),
{
    reveal_strlit("overflow-hidden");
    reveal_strlit("text-ellipsis");
    reveal_strlit("truncate");
    reveal_strlit("whitespace-nowrap");
    let m = spec_shorthand_mappings()[47];
    assert(m.0 =~= seq!["overflow-hidden"@, "text-ellipsis"@, "whitespace-nowrap"@]);
    assert(m.1 =~= seq!["truncate"@]);
    assert(box_utility("overflow-hidden"@) is None);
    assert(box_utility("text-ellipsis"@) is None);
    assert(box_utility("whitespace-nowrap"@) is None);
    assert(box_utility("truncate"@) is None);
    assert(!any_box(m.0)) by {
        if any_box(m.0) {
            let i = choose|i: int| 0 <= i < m.0.len() && (#[trigger] box_utility(m.0[i])) is Some;
            if i == 0 { assert(m.0[i] == "overflow-hidden"@); }
            if i == 1 { assert(m.0[i] == "text-ellipsis"@); }
            if i == 2 { assert(m.0[i] == "whitespace-nowrap"@); }
        }
    }
    assert(!any_box(m.1)) by {
        if any_box(m.1) {
            let i = choose|i: int| 0 <= i < m.1.len() && (#[trigger] box_utility(m.1[i])) is Some;
            if i == 0 { assert(m.1[i] == "truncate"@); }
        }
    }
}

/// The shorthand table replaces longhands only by a shorthand that sets the same box edges:
/// in every mapping that names a box utility (padding, margin, scroll padding or margin, border
/// width, radius, inset), every utility is a box utility of one family, and the shorthand covers
/// exactly the sides (or corners) that its longhands cover together.
pub proof fn shorthands_cover_their_longhands()
    ensures
        forall|k: int| 0 <= k < spec_shorthand_mappings().len() ==> #[trigger] covers_its_longhands(spec_shorthand_mappings()[k]),
{
    assert(spec_shorthand_mappings().len() == 48);
    assert forall|k: int| 0 <= k < spec_shorthand_mappings().len() implies #[trigger] covers_its_longhands(spec_shorthand_mappings()[k]) by {
        if k == 0 {
            row_0();
        } else if k == 1 {
            row_1();
        } else if k == 2 {
            row_2();
        } else if k == 3 {
            row_3();
        } else if k == 4 {
            row_4();
        } else if k == 5 {
            row_5();
        } else if k == 6 {
            row_6();
        } else if k == 7 {
            row_7();
        } else if k == 8 {
            row_8();
        } else if k == 9 {
            row_9();
        } else if k == 10 {
            row_10();
        } else if k == 11 {
            row_11();
        } else if k == 12 {
            row_12();
        } else if k == 13 {
            row_13();
        } else if k == 14 {
            row_14();
        } else if k == 15 {
            row_15();
        } else if k == 16 {
            row_16();
        } else if k == 17 {
            row_17();
        } else if k == 18 {
            row_18();
        } else if k == 19 {
            row_19();
        } else if k == 20 {
            row_20();
        } else if k == 21 {
            row_21();
        } else if k == 22 {
            row_22();
        } else if k == 23 {
            row_23();
        } else if k == 24 {
            row_24();
        } else if k == 25 {
            row_25();
        } else if k == 26 {
            row_26();
        } else if k == 27 {
            row_27();
        } else if k == 28 {
            row_28();
        } else if k == 29 {
            row_29();
        } else if k == 30 {
            row_30();
        } else if k == 31 {
            row_31();
        } else if k == 32 {
            row_32();
        } else if k == 33 {
            row_33();
        } else if k == 34 {
            row_34();
        } else if k == 35 {
            row_35();
        } else if k == 36 {
            row_36();
        } else if k == 37 {
            row_37();
        } else if k == 38 {
            row_38();
        } else if k == 39 {
            row_39();
        } else if k == 40 {
            row_40();
        } else if k == 41 {
            row_41();
        } else if k == 42 {
            row_42();
        } else if k == 43 {
            row_43();
        } else if k == 44 {
            row_44();
        } else if k == 45 {
            row_45();
        } else if k == 46 {
            row_46();
        } else if k == 47 {
            row_47();
        }
    }
}

} // verus!
