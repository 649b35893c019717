//! Orders in which to try the panels: equal panels are gathered into
//! groups, the largest groups are permuted, and orders that look alike by
//! their sizes are dropped.
use vstd::prelude::*;
use vstd::multiset::Multiset;
use crate::models::grouped_tile_dimensions::GroupedTileDimensions;
use crate::models::tile_dimensions::TileDimensions;
use crate::features::input::{PanelGroup, PanelInstance};
use crate::features::panel_grouper::{
    areas_of, by_area_desc, concat, count_in, group_areas, groups_of, instances_of, is_permutation, is_stable_order,
    lemma_concat_count, lemma_perm_covers, push_range, stable_order, PanelGrouper,
};
use crate::models::arrangement::{arrangements, lemma_arrangements_are_permutations, index_arrangements, index_range, lemma_factorial_small, lemma_arrangements_count, lemma_index_arrangements_select, nested_view};

verus! {

/// Generator of panel orders from grouped panels.
pub struct PermutationGenerator;

/// Two grouped tiles stand for the same group: same group number and size.
pub open spec fn groups_match_spec(a: GroupedTileDimensions, b: GroupedTileDimensions) -> bool {
    &&& a.group == b.group
    &&& a.tile_dimensions.width == b.tile_dimensions.width
    &&& a.tile_dimensions.height == b.tile_dimensions.height
}

/// Whether some element of `s` matches `x`.
pub open spec fn has_match(s: Seq<GroupedTileDimensions>, x: GroupedTileDimensions) -> bool {
    exists|i: int| 0 <= i < s.len() && groups_match_spec(#[trigger] s[i], x)
}

/// One representative per group, in order of first appearance.
pub open spec fn first_occurrences(s: Seq<GroupedTileDimensions>) -> Seq<GroupedTileDimensions>
    decreases s.len(),
{
    if s.len() == 0 {
        Seq::empty()
    } else {
        let f = first_occurrences(s.drop_last());
        if has_match(f, s.last()) {
            f
        } else {
            f.push(s.last())
        }
    }
}

/// How many elements of `s` belong to the group of `g`.
pub open spec fn count_matching(s: Seq<GroupedTileDimensions>, g: GroupedTileDimensions) -> int
    decreases s.len(),
{
    if s.len() == 0 {
        0
    } else {
        count_matching(s.drop_last(), g) + if groups_match_spec(g, s.last()) { 1int } else { 0int }
    }
}

/// `d` lists each group of `s` once, in order of first appearance, with the
/// number of elements of `s` in that group.
pub open spec fn is_distinct_count(s: Seq<GroupedTileDimensions>, d: Seq<(GroupedTileDimensions, i32)>) -> bool {
    &&& d.map_values(|e: (GroupedTileDimensions, i32)| e.0) == first_occurrences(s)
    &&& forall|j: int| 0 <= j < d.len() ==> (#[trigger] d[j]).1 == count_matching(s, d[j].0)
}

proof fn lemma_first_occurrences_props(s: Seq<GroupedTileDimensions>)
    ensures
        forall|i: int, j: int|
            0 <= i < j < first_occurrences(s).len() ==> !groups_match_spec(
                #[trigger] first_occurrences(s)[i],
                #[trigger] first_occurrences(s)[j],
            ),
        forall|k: int| 0 <= k < s.len() ==> has_match(first_occurrences(s), #[trigger] s[k]),
        first_occurrences(s).len() <= s.len(),
    decreases s.len(),
{
    if s.len() > 0 {
        let init = s.drop_last();
        lemma_first_occurrences_props(init);
        let f = first_occurrences(init);
        assert forall|k: int| 0 <= k < s.len() implies has_match(first_occurrences(s), #[trigger] s[k]) by {
            if k < s.len() - 1 {
                assert(s[k] == init[k]);
                assert(has_match(f, init[k]));
                let i = choose|i: int| 0 <= i < f.len() && groups_match_spec(#[trigger] f[i], init[k]);
                assert(first_occurrences(s)[i] == f[i]);
            } else {
                if has_match(f, s.last()) {
                } else {
                    assert(first_occurrences(s)[f.len() as int] == s.last());
                }
            }
        }
    }
}

proof fn lemma_first_occurrences_from_input(s: Seq<GroupedTileDimensions>)
    ensures
        forall|j: int| 0 <= j < first_occurrences(s).len() ==> s.contains(#[trigger] first_occurrences(s)[j]),
    decreases s.len(),
{
    if s.len() > 0 {
        let init = s.drop_last();
        lemma_first_occurrences_from_input(init);
        let f = first_occurrences(init);
        assert forall|j: int| 0 <= j < first_occurrences(s).len() implies s.contains(
            #[trigger] first_occurrences(s)[j],
        ) by {
            if j < f.len() {
                assert(first_occurrences(s)[j] == f[j]);
                assert(init.contains(f[j]));
                let k = choose|k: int| 0 <= k < init.len() && init[k] == f[j];
                assert(s[k] == init[k]);
            } else {
                assert(first_occurrences(s)[j] == s[s.len() - 1]);
            }
        }
    }
}

/// Grouped panels with a different group number or size are different
/// groups: the distinct groups of `s` (those that
/// `get_distinct_grouped_tile_dimensions` lists and whose orders
/// `create_group_permutations` tries) hold an entry with the group number,
/// width and height of every element of `s`, no two entries agree in all
/// three, and each entry is an element of `s`.
pub proof fn law_distinct_groups_by_number_and_size(s: Seq<GroupedTileDimensions>)
    ensures
        forall|k: int|
            0 <= k < s.len() ==> exists|j: int|
                0 <= j < first_occurrences(s).len() && (#[trigger] first_occurrences(s)[j]).group == (
                #[trigger] s[k]).group && first_occurrences(s)[j].tile_dimensions.width == s[k].tile_dimensions.width
                    && first_occurrences(s)[j].tile_dimensions.height == s[k].tile_dimensions.height,
        forall|i: int, j: int|
            0 <= i < j < first_occurrences(s).len() ==> !({
                let a = #[trigger] first_occurrences(s)[i];
                let b = #[trigger] first_occurrences(s)[j];
                &&& a.group == b.group
                &&& a.tile_dimensions.width == b.tile_dimensions.width
                &&& a.tile_dimensions.height == b.tile_dimensions.height
            }),
        forall|j: int| 0 <= j < first_occurrences(s).len() ==> s.contains(#[trigger] first_occurrences(s)[j]),
{
    lemma_first_occurrences_props(s);
    lemma_first_occurrences_from_input(s);
    let f = first_occurrences(s);
    assert forall|k: int| 0 <= k < s.len() implies exists|j: int|
        0 <= j < f.len() && (#[trigger] f[j]).group == (#[trigger] s[k]).group && f[j].tile_dimensions.width
            == s[k].tile_dimensions.width && f[j].tile_dimensions.height == s[k].tile_dimensions.height by {
        assert(has_match(f, s[k]));
        let j = choose|j: int| 0 <= j < f.len() && groups_match_spec(#[trigger] f[j], s[k]);
        assert(f[j].group == s[k].group);
    }
}

proof fn lemma_count_zero(s: Seq<GroupedTileDimensions>, x: GroupedTileDimensions)
    requires
        !has_match(first_occurrences(s), x),
    ensures
        count_matching(s, x) == 0,
    decreases s.len(),
{
    if s.len() > 0 {
        let init = s.drop_last();
        lemma_first_occurrences_props(s);
        assert(has_match(first_occurrences(s), s[s.len() - 1]));
        assert(!groups_match_spec(x, s.last()));
        if has_match(first_occurrences(init), x) {
            let i = choose|i: int| 0 <= i < first_occurrences(init).len() && groups_match_spec(
                #[trigger] first_occurrences(init)[i],
                x,
            );
            assert(first_occurrences(s)[i] == first_occurrences(init)[i]);
        }
        lemma_count_zero(init, x);
    }
}

/// A copy of a grouped tile.
fn copy_grouped(g: &GroupedTileDimensions) -> (r: GroupedTileDimensions)
    ensures
        r == *g,
{
    GroupedTileDimensions::from_grouped(g)
}

fn groups_match(a: &GroupedTileDimensions, b: &GroupedTileDimensions) -> (r: bool)
    ensures
        r == groups_match_spec(*a, *b),
{
    a.group == b.group && a.tile_dimensions.width == b.tile_dimensions.width && a.tile_dimensions.height
        == b.tile_dimensions.height
}

impl PermutationGenerator {
    /// Each group of `grouped_panels` once, in order of first appearance,
    /// with the number of panels in it.
    pub fn get_distinct_grouped_tile_dimensions(grouped_panels: &[GroupedTileDimensions]) -> (d: Vec<
        (GroupedTileDimensions, i32),
    >)
        requires
            grouped_panels@.len() <= i32::MAX,
        ensures
            is_distinct_count(grouped_panels@, d@),
    {
        let mut d: Vec<(GroupedTileDimensions, i32)> = Vec::new();
        let mut i: usize = 0;
        let ghost s = grouped_panels@;
        proof {
            assert(s.take(0) =~= Seq::<GroupedTileDimensions>::empty());
            assert(d@.map_values(|e: (GroupedTileDimensions, i32)| e.0) =~= Seq::<GroupedTileDimensions>::empty());
        }
        while i < grouped_panels.len()
            invariant
                s == grouped_panels@,
                s.len() <= i32::MAX,
                i <= s.len(),
                is_distinct_count(s.take(i as int), d@),
                d.len() <= i,
            decreases s.len() - i,
        {
            let x = &grouped_panels[i];
            let ghost pre = s.take(i as int);
            let ghost post = s.take(i + 1);
            proof {
                assert(post.drop_last() =~= pre);
                assert(post.last() == *x);
                lemma_first_occurrences_props(pre);
            }
            let mut j: usize = 0;
            let mut found = false;
            while j < d.len() && !found
                invariant
                    j <= d.len(),
                    found ==> j < d.len() && groups_match_spec(d@[j as int].0, *x),
                    forall|q: int| 0 <= q < j ==> !groups_match_spec(#[trigger] d@[q].0, *x),
                decreases d.len() - j + (if found { 0int } else { 1int }),
            {
                if groups_match(&d[j].0, x) {
                    found = true;
                } else {
                    j = j + 1;
                }
            }
            let ghost keys = d@.map_values(|e: (GroupedTileDimensions, i32)| e.0);
            if found {
                proof {
                    assert(keys[j as int] == d@[j as int].0);
                    assert(has_match(keys, *x));
                    assert(d@[j as int].1 == count_matching(pre, d@[j as int].0));
                    assert(d@[j as int].1 < i32::MAX) by {
                        lemma_count_le(pre, d@[j as int].0);
                    }
                }
                let g = copy_grouped(&d[j].0);
                let c = d[j].1;
                d.set(j, (g, c + 1));
                proof {
                    let nkeys = d@.map_values(|e: (GroupedTileDimensions, i32)| e.0);
                    assert(nkeys =~= keys);
                    assert forall|q: int| 0 <= q < d@.len() implies (#[trigger] d@[q]).1 == count_matching(
                        post,
                        d@[q].0,
                    ) by {
                        if q != j {
                            assert(!groups_match_spec(keys[q], keys[j as int]));
                            assert(!groups_match_spec(d@[q].0, *x));
                        }
                    }
                }
            } else {
                proof {
                    assert forall|q: int| 0 <= q < keys.len() implies !groups_match_spec(#[trigger] keys[q], *x) by {
                        assert(keys[q] == d@[q].0);
                    }
                    assert(!has_match(keys, *x));
                    lemma_count_zero(pre, *x);
                }
                d.push((copy_grouped(x), 1));
                proof {
                    let nkeys = d@.map_values(|e: (GroupedTileDimensions, i32)| e.0);
                    assert(nkeys =~= keys.push(*x));
                    assert forall|q: int| 0 <= q < d@.len() implies (#[trigger] d@[q]).1 == count_matching(
                        post,
                        d@[q].0,
                    ) by {
                        if q < d@.len() - 1 {
                            assert(d@[q].1 == count_matching(pre, d@[q].0));
                            assert(!groups_match_spec(d@[q].0, *x));
                        }
                    }
                }
            }
            i = i + 1;
        }
        proof {
            assert(s.take(s.len() as int) =~= s);
        }
        d
    }
}

proof fn lemma_count_le(s: Seq<GroupedTileDimensions>, g: GroupedTileDimensions)
    ensures
        0 <= count_matching(s, g) <= s.len(),
    decreases s.len(),
{
    if s.len() > 0 {
        lemma_count_le(s.drop_last(), g);
    }
}


/// The area of a grouped tile.
pub open spec fn group_area(g: GroupedTileDimensions) -> int {
    g.tile_dimensions.width * g.tile_dimensions.height
}

/// Larger areas first.
pub open spec fn sorted_by_area_desc(s: Seq<GroupedTileDimensions>) -> bool {
    forall|i: int, j: int| 0 <= i < j < s.len() ==> group_area(#[trigger] s[i]) >= group_area(#[trigger] s[j])
}

fn area_of(g: &GroupedTileDimensions) -> (a: u64)
    ensures
        a == group_area(*g),
{
    g.area()
}

/// The groups ordered by decreasing area; groups of equal area keep their
/// relative order.
fn sort_by_area_desc(v: &Vec<GroupedTileDimensions>) -> (r: Vec<GroupedTileDimensions>)
    ensures
        sorted_by_area_desc(r@),
        r@.to_multiset() == v@.to_multiset(),
{
    broadcast use vstd::seq_lib::group_to_multiset_ensures;
    let mut r: Vec<GroupedTileDimensions> = Vec::new();
    let mut i: usize = 0;
    while i < v.len()
        invariant
            i <= v.len(),
            sorted_by_area_desc(r@),
            r@.to_multiset() == v@.take(i as int).to_multiset(),
        decreases v.len() - i,
    {
        let x = copy_grouped(&v[i]);
        let ax = area_of(&x);
        let mut p: usize = 0;
        while p < r.len() && area_of(&r[p]) >= ax
            invariant
                p <= r.len(),
                forall|q: int| 0 <= q < p ==> group_area(#[trigger] r@[q]) >= ax,
            decreases r.len() - p,
        {
            p = p + 1;
        }
        let ghost before = r@;
        proof {
            assert forall|q: int| p <= q < before.len() implies group_area(#[trigger] before[q]) < ax by {
                assert(group_area(before[p as int]) < ax);
                if q > p {
                    assert(group_area(before[p as int]) >= group_area(before[q]));
                }
            }
        }
        r.insert(p, x);
        proof {
            assert(r@ == before.insert(p as int, x));
            assert forall|a: int, b: int| 0 <= a < b < r@.len() implies group_area(#[trigger] r@[a]) >= group_area(
                #[trigger] r@[b],
            ) by {
                if a < p {
                    if b < p {
                        assert(r@[a] == before[a] && r@[b] == before[b]);
                    } else if b == p {
                        assert(r@[a] == before[a]);
                    } else {
                        assert(r@[a] == before[a] && r@[b] == before[b - 1]);
                    }
                } else if a == p {
                    assert(r@[b] == before[b - 1]);
                } else {
                    assert(r@[a] == before[a - 1] && r@[b] == before[b - 1]);
                }
            }
            vstd::seq_lib::to_multiset_insert(before, p as int, x);
            assert(v@.take(i + 1) =~= v@.take(i as int).push(v@[i as int]));
            vstd::seq_lib::to_multiset_build(v@.take(i as int), v@[i as int]);
            assert(x == v@[i as int]);
        }
        i = i + 1;
    }
    proof {
        assert(v@.take(v.len() as int) =~= v@);
    }
    r
}

/// How many of the largest groups are permuted; the rest keep their order.
pub open spec fn permuted_count(n: int) -> int {
    if n > 7 { 7 } else { n }
}

/// The group orders tried: every ordering of the (at most seven) first
/// groups, each followed by the remaining groups in their given order.
pub open spec fn group_perms_spec(sorted: Seq<GroupedTileDimensions>) -> Seq<Seq<GroupedTileDimensions>> {
    let m = permuted_count(sorted.len() as int);
    arrangements(sorted.take(m)).map_values(|p: Seq<GroupedTileDimensions>| p + sorted.skip(m))
}

/// The tiles of the panels in `os` that belong to the group of `g`, in
/// their order in `os`.
pub open spec fn matching_tiles(os: Seq<GroupedTileDimensions>, g: GroupedTileDimensions) -> Seq<TileDimensions>
    decreases os.len(),
{
    if os.len() == 0 {
        Seq::empty()
    } else {
        matching_tiles(os.drop_last(), g) + if groups_match_spec(g, os.last()) {
            seq![os.last().tile_dimensions]
        } else {
            Seq::empty()
        }
    }
}

/// The panel order for a group order: for each group in turn, all panels
/// of that group.
pub open spec fn tiles_for(p: Seq<GroupedTileDimensions>, os: Seq<GroupedTileDimensions>) -> Seq<TileDimensions>
    decreases p.len(),
{
    if p.len() == 0 {
        Seq::empty()
    } else {
        tiles_for(p.drop_last(), os) + matching_tiles(os, p.last())
    }
}

pub open spec fn convert_spec(
    gps: Seq<Seq<GroupedTileDimensions>>,
    os: Seq<GroupedTileDimensions>,
) -> Seq<Seq<TileDimensions>> {
    gps.map_values(|p: Seq<GroupedTileDimensions>| tiles_for(p, os))
}

/// The size-based hash of a panel order: `h * 31 + dimension hash` over the
/// panels, wrapping in `i32`.
pub open spec fn perm_hash(p: Seq<TileDimensions>) -> i32
    decreases p.len(),
{
    if p.len() == 0 {
        0
    } else {
        perm_hash(p.drop_last()).wrapping_mul(31).wrapping_add(p.last().dimensions_hash_spec())
    }
}

pub open spec fn hash_seen(ps: Seq<Seq<TileDimensions>>, h: i32) -> bool {
    exists|i: int| 0 <= i < ps.len() && perm_hash(#[trigger] ps[i]) == h
}

/// The orders whose hash has not been seen earlier in `ps`.
pub open spec fn dedup_by_hash(ps: Seq<Seq<TileDimensions>>) -> Seq<Seq<TileDimensions>>
    decreases ps.len(),
{
    if ps.len() == 0 {
        Seq::empty()
    } else {
        let d = dedup_by_hash(ps.drop_last());
        if hash_seen(ps.drop_last(), perm_hash(ps.last())) {
            d
        } else {
            d.push(ps.last())
        }
    }
}

fn copy_tiles(v: &Vec<TileDimensions>) -> (r: Vec<TileDimensions>)
    ensures
        r@ == v@,
{
    let mut r: Vec<TileDimensions> = Vec::new();
    let mut i: usize = 0;
    while i < v.len()
        invariant
            i <= v.len(),
            r@ == v@.take(i as int),
        decreases v.len() - i,
    {
        r.push(v[i].duplicate());
        proof {
            assert(v@.take(i + 1) =~= v@.take(i as int).push(v@[i as int]));
        }
        i = i + 1;
    }
    proof {
        assert(v@.take(v.len() as int) =~= v@);
    }
    r
}

fn group_permutations(sorted: &Vec<GroupedTileDimensions>) -> (r: Vec<Vec<GroupedTileDimensions>>)
    ensures
        nested_view(r@) == group_perms_spec(sorted@),
{
    let n = sorted.len();
    let m: usize = if n > 7 { 7 } else { n };
    let idx = index_arrangements(0, m);
    let ghost s = sorted@;
    let ghost a = arrangements(index_range(0, m as int));
    proof {
        lemma_index_arrangements_select(s, m as int);
    }
    let mut r: Vec<Vec<GroupedTileDimensions>> = Vec::new();
    let mut k: usize = 0;
    while k < idx.len()
        invariant
            s == sorted@,
            n == s.len(),
            m as int == permuted_count(n as int),
            nested_view(idx@) == a,
            a == arrangements(index_range(0, m as int)),
            a.len() == arrangements(s.take(m as int)).len(),
            forall|q: int|
                0 <= q < a.len() ==> {
                    &&& (#[trigger] a[q]).len() == m
                    &&& arrangements(s.take(m as int))[q] == a[q].map_values(|i: usize| s[i as int])
                    &&& forall|j: int| 0 <= j < m ==> a[q][j] < m
                },
            k <= idx.len(),
            nested_view(r@) == group_perms_spec(s).take(k as int),
        decreases idx.len() - k,
    {
        let p = &idx[k];
        assert(p@ == a[k as int]);
        let mut row: Vec<GroupedTileDimensions> = Vec::new();
        let mut j: usize = 0;
        while j < p.len()
            invariant
                p@ == a[k as int],
                p.len() == m,
                m <= n,
                s == sorted@,
                n == s.len(),
                forall|j: int| 0 <= j < m ==> a[k as int][j] < m,
                j <= p.len(),
                row@ == a[k as int].map_values(|i: usize| s[i as int]).take(j as int),
            decreases p.len() - j,
        {
            row.push(copy_grouped(&sorted[p[j]]));
            proof {
                assert(row@ =~= a[k as int].map_values(|i: usize| s[i as int]).take(j + 1));
            }
            j = j + 1;
        }
        let mut t: usize = m;
        let ghost head = a[k as int].map_values(|i: usize| s[i as int]);
        proof {
            assert(head.take(m as int) =~= head);
        }
        while t < n
            invariant
                m <= t <= n,
                s == sorted@,
                n == s.len(),
                head.len() == m,
                row@ == head + s.subrange(m as int, t as int),
            decreases n - t,
        {
            row.push(copy_grouped(&sorted[t]));
            proof {
                assert(row@ =~= head + s.subrange(m as int, t + 1));
            }
            t = t + 1;
        }
        let ghost pre = r@;
        r.push(row);
        proof {
            assert(s.subrange(m as int, n as int) =~= s.skip(m as int));
            assert(nested_view(r@) =~= nested_view(pre).push(head + s.skip(m as int)));
            assert(group_perms_spec(s)[k as int] == arrangements(s.take(m as int))[k as int] + s.skip(m as int));
            assert(group_perms_spec(s).take(k + 1) =~= group_perms_spec(s).take(k as int).push(
                group_perms_spec(s)[k as int],
            ));
        }
        k = k + 1;
    }
    proof {
        assert(group_perms_spec(s).take(k as int) =~= group_perms_spec(s));
    }
    r
}

fn push_matching_tiles(out: &mut Vec<TileDimensions>, os: &[GroupedTileDimensions], g: &GroupedTileDimensions)
    ensures
        final(out)@ == old(out)@ + matching_tiles(os@, *g),
{
    let ghost start = out@;
    let mut i: usize = 0;
    while i < os.len()
        invariant
            i <= os@.len(),
            out@ == start + matching_tiles(os@.take(i as int), *g),
        decreases os@.len() - i,
    {
        proof {
            assert(os@.take(i + 1).drop_last() =~= os@.take(i as int));
        }
        if groups_match(g, &os[i]) {
            out.push(os[i].tile_dimensions.duplicate());
        }
        proof {
            assert(out@ =~= start + matching_tiles(os@.take(i + 1), *g));
        }
        i = i + 1;
    }
    proof {
        assert(os@.take(os@.len() as int) =~= os@);
    }
}

fn convert_group_permutations_to_tile_permutations(
    group_permutations: &Vec<Vec<GroupedTileDimensions>>,
    original_grouped_panels: &[GroupedTileDimensions],
) -> (r: Vec<Vec<TileDimensions>>)
    ensures
        nested_view(r@) == convert_spec(nested_view(group_permutations@), original_grouped_panels@),
{
    let ghost gps = nested_view(group_permutations@);
    let ghost os = original_grouped_panels@;
    let mut r: Vec<Vec<TileDimensions>> = Vec::new();
    let mut k: usize = 0;
    while k < group_permutations.len()
        invariant
            gps == nested_view(group_permutations@),
            os == original_grouped_panels@,
            k <= group_permutations.len(),
            nested_view(r@) == convert_spec(gps, os).take(k as int),
        decreases group_permutations.len() - k,
    {
        let p = &group_permutations[k];
        let mut tiles: Vec<TileDimensions> = Vec::new();
        let mut j: usize = 0;
        proof {
            assert(tiles_for(p@.take(0), os) =~= Seq::<TileDimensions>::empty());
        }
        while j < p.len()
            invariant
                os == original_grouped_panels@,
                j <= p.len(),
                tiles@ == tiles_for(p@.take(j as int), os),
            decreases p.len() - j,
        {
            push_matching_tiles(&mut tiles, original_grouped_panels, &p[j]);
            proof {
                assert(p@.take(j + 1).drop_last() =~= p@.take(j as int));
            }
            j = j + 1;
        }
        proof {
            assert(p@.take(p.len() as int) =~= p@);
            assert(gps[k as int] == p@);
        }
        let ghost pre = r@;
        r.push(tiles);
        proof {
            assert(nested_view(r@) =~= nested_view(pre).push(tiles_for(p@, os)));
            assert(convert_spec(gps, os).take(k + 1) =~= convert_spec(gps, os).take(k as int).push(
                tiles_for(gps[k as int], os),
            ));
        }
        k = k + 1;
    }
    proof {
        assert(convert_spec(gps, os).take(k as int) =~= convert_spec(gps, os));
    }
    r
}

fn dimensions_based_hash_code(tile: &TileDimensions) -> (h: i32)
    ensures
        h == tile.dimensions_hash_spec(),
{
    tile.dimensions_based_hash_code()
}

fn permutation_hash(p: &Vec<TileDimensions>) -> (h: i32)
    ensures
        h == perm_hash(p@),
{
    let mut h: i32 = 0;
    let mut i: usize = 0;
    proof {
        assert(p@.take(0) =~= Seq::<TileDimensions>::empty());
    }
    while i < p.len()
        invariant
            i <= p.len(),
            h == perm_hash(p@.take(i as int)),
        decreases p.len() - i,
    {
        proof {
            assert(p@.take(i + 1).drop_last() =~= p@.take(i as int));
        }
        h = h.wrapping_mul(31).wrapping_add(dimensions_based_hash_code(&p[i]));
        i = i + 1;
    }
    proof {
        assert(p@.take(p.len() as int) =~= p@);
    }
    h
}

fn contains_i32(v: &Vec<i32>, x: i32) -> (r: bool)
    ensures
        r == v@.contains(x),
{
    let mut i: usize = 0;
    while i < v.len()
        invariant
            i <= v.len(),
            forall|j: int| 0 <= j < i ==> v@[j] != x,
        decreases v.len() - i,
    {
        if v[i] == x {
            return true;
        }
        i = i + 1;
    }
    false
}


/// Deduplication never lengthens the list.
proof fn lemma_dedup_len(ps: Seq<Seq<TileDimensions>>)
    ensures
        dedup_by_hash(ps).len() <= ps.len(),
    decreases ps.len(),
{
    if ps.len() > 0 {
        lemma_dedup_len(ps.drop_last());
    }
}

/// One more order: it is kept exactly when its hash is new.
proof fn lemma_dedup_step(orig: Seq<Seq<TileDimensions>>, k: int)
    requires
        0 <= k < orig.len(),
    ensures
        dedup_by_hash(orig.take(k + 1)) == (if hash_seen(orig.take(k), perm_hash(orig[k])) {
            dedup_by_hash(orig.take(k))
        } else {
            dedup_by_hash(orig.take(k)).push(orig[k])
        }),
        forall|x: i32| #[trigger] hash_seen(orig.take(k + 1), x) <==> (hash_seen(orig.take(k), x) || x == perm_hash(orig[k])),
{
    assert(orig.take(k + 1).drop_last() =~= orig.take(k));
    assert(orig.take(k + 1).last() == orig[k]);
    assert forall|x: i32| #[trigger] hash_seen(orig.take(k + 1), x) <==> (hash_seen(orig.take(k), x) || x == perm_hash(orig[k])) by {
        if hash_seen(orig.take(k + 1), x) && x != perm_hash(orig[k]) {
            let i = choose|i: int| 0 <= i < orig.take(k + 1).len() && perm_hash(#[trigger] orig.take(k + 1)[i]) == x;
            assert(orig.take(k)[i] == orig.take(k + 1)[i]);
        }
        if hash_seen(orig.take(k), x) {
            let i = choose|i: int| 0 <= i < orig.take(k).len() && perm_hash(#[trigger] orig.take(k)[i]) == x;
            assert(orig.take(k + 1)[i] == orig.take(k)[i]);
        }
        if x == perm_hash(orig[k]) {
            assert(orig.take(k + 1)[k] == orig[k]);
        }
    }
}


/// The set of hashes seen grows by the hash of the order just read.
proof fn lemma_seen_step(orig: Seq<Seq<TileDimensions>>, k: int, pre_seen: Seq<i32>, seen: Seq<i32>, h: i32)
    requires
        0 <= k < orig.len(),
        h == perm_hash(orig[k]),
        forall|x: i32| pre_seen.contains(x) <==> hash_seen(orig.take(k), x),
        seen == (if pre_seen.contains(h) { pre_seen } else { pre_seen.push(h) }),
    ensures
        forall|x: i32| seen.contains(x) <==> hash_seen(orig.take(k + 1), x),
{
    lemma_dedup_step(orig, k);
    assert forall|x: i32| seen.contains(x) <==> hash_seen(orig.take(k + 1), x) by {
        assert(hash_seen(orig.take(k + 1), x) <==> (hash_seen(orig.take(k), x) || x == h));
        if !pre_seen.contains(h) {
            assert(seen.contains(x) <==> (pre_seen.contains(x) || x == h)) by {
                if x == h {
                    assert(seen[pre_seen.len() as int] == h);
                }
                if seen.contains(x) && x != h {
                    let i = choose|i: int| 0 <= i < seen.len() && seen[i] == x;
                    assert(pre_seen[i] == x);
                }
                if pre_seen.contains(x) {
                    let i = choose|i: int| 0 <= i < pre_seen.len() && pre_seen[i] == x;
                    assert(seen[i] == x);
                }
            }
        }
    }
}

impl PermutationGenerator {
    /// Keeps, of the orders with equal size-based hash, only the first;
    /// returns how many were dropped.
    pub fn remove_duplicated_permutations(permutations: &mut Vec<Vec<TileDimensions>>) -> (removed: i32)
        requires
            old(permutations)@.len() <= i32::MAX,
        ensures
            nested_view(final(permutations)@) == dedup_by_hash(nested_view(old(permutations)@)),
            removed == old(permutations)@.len() - final(permutations)@.len(),
    {
        let mut all: Vec<Vec<TileDimensions>> = Vec::new();
        std::mem::swap(permutations, &mut all);
        let ghost orig = nested_view(all@);
        let mut seen: Vec<i32> = Vec::new();
        let mut removed: i32 = 0;
        let mut i: usize = 0;
        proof {
            assert(orig.take(0) =~= Seq::<Seq<TileDimensions>>::empty());
            assert(nested_view(permutations@) =~= Seq::<Seq<TileDimensions>>::empty());
        }
        while i < all.len()
            invariant
                orig == nested_view(all@),
                all@.len() <= i32::MAX,
                i <= all@.len(),
                nested_view(permutations@) == dedup_by_hash(orig.take(i as int)),
                forall|x: i32| seen@.contains(x) <==> hash_seen(orig.take(i as int), x),
                removed == i - permutations@.len(),
                0 <= removed <= i,
            decreases all.len() - i,
        {
            let ghost k = i as int;
            proof {
                lemma_dedup_step(orig, k);
                lemma_dedup_len(orig.take(k + 1));
                assert(orig[k] == all@[k]@);
            }
            let h = permutation_hash(&all[i]);
            let ghost pre_seen = seen@;
            if contains_i32(&seen, h) {
                removed = removed + 1;
            } else {
                let ghost pre_p = nested_view(permutations@);
                seen.push(h);
                permutations.push(copy_tiles(&all[i]));
                proof {
                    assert(nested_view(permutations@) =~= pre_p.push(orig[k]));
                }
            }
            proof {
                lemma_seen_step(orig, k, pre_seen, seen@, h);
            }
            i = i + 1;
        }
        proof {
            assert(orig.take(orig.len() as int) =~= orig);
        }
        removed
    }
}

/// Every distinct group is kept (at most seven of them permuted), so at
/// most 5040 group orders are produced.
proof fn lemma_group_perms_count(sorted: Seq<GroupedTileDimensions>)
    ensures
        group_perms_spec(sorted).len() <= 5040,
{
    let m = permuted_count(sorted.len() as int);
    lemma_arrangements_count(sorted.take(m));
    lemma_factorial_small(m as nat);
}

impl PermutationGenerator {
    /// The panel orders to try: the distinct groups of `grouped_panels`
    /// sorted by decreasing area, every ordering of the (at most seven)
    /// largest followed by the rest, each turned into the panels of its
    /// groups, without orders whose size-based hash repeats an earlier one.
    pub fn create_group_permutations(grouped_panels: &[GroupedTileDimensions]) -> (r: Vec<Vec<TileDimensions>>)
        requires
            grouped_panels@.len() <= i32::MAX,
        ensures
            exists|sorted: Seq<GroupedTileDimensions>|
                {
                    &&& sorted_by_area_desc(sorted)
                    &&& sorted.to_multiset() == first_occurrences(grouped_panels@).to_multiset()
                    &&& nested_view(r@) == dedup_by_hash(convert_spec(group_perms_spec(sorted), grouped_panels@))
                },
    {
        let distinct = Self::get_distinct_grouped_tile_dimensions(grouped_panels);
        let mut unique_groups: Vec<GroupedTileDimensions> = Vec::new();
        let mut i: usize = 0;
        while i < distinct.len()
            invariant
                i <= distinct.len(),
                unique_groups@ == distinct@.map_values(|e: (GroupedTileDimensions, i32)| e.0).take(i as int),
            decreases distinct.len() - i,
        {
            unique_groups.push(copy_grouped(&distinct[i].0));
            proof {
                assert(unique_groups@ =~= distinct@.map_values(|e: (GroupedTileDimensions, i32)| e.0).take(i + 1));
            }
            i = i + 1;
        }
        proof {
            assert(distinct@.map_values(|e: (GroupedTileDimensions, i32)| e.0).take(i as int)
                =~= first_occurrences(grouped_panels@));
        }
        let sorted = sort_by_area_desc(&unique_groups);
        let group_perms = group_permutations(&sorted);
        let mut tile_perms = convert_group_permutations_to_tile_permutations(&group_perms, grouped_panels);
        proof {
            lemma_group_perms_count(sorted@);
            assert(nested_view(tile_perms@).len() == tile_perms@.len());
            assert(nested_view(group_perms@).len() == group_perms@.len());
        }
        let ghost converted = nested_view(tile_perms@);
        let _removed = Self::remove_duplicated_permutations(&mut tile_perms);
        proof {
            assert(sorted_by_area_desc(sorted@));
            assert(sorted@.to_multiset() == first_occurrences(grouped_panels@).to_multiset());
            assert(nested_view(tile_perms@) == dedup_by_hash(convert_spec(group_perms_spec(sorted@), grouped_panels@)));
        }
        tile_perms
    }
}
/// The instances of the groups taken in `order`.
pub open spec fn ordered_instances(gs: Seq<PanelGroup>, order: Seq<usize>) -> Seq<Seq<PanelInstance>> {
    order.map_values(|i: usize| gs[i as int].instances@)
}

/// The first instance of each group taken in `order` (none for an empty group).
pub open spec fn heads(gs: Seq<PanelGroup>, order: Seq<usize>) -> Seq<Seq<PanelInstance>> {
    order.map_values(
        |i: usize|
            if gs[i as int].instances@.len() > 0 {
                seq![gs[i as int].instances@[0]]
            } else {
                Seq::<PanelInstance>::empty()
            },
    )
}

/// All but the first instance of each group taken in `order`.
pub open spec fn tails(gs: Seq<PanelGroup>, order: Seq<usize>) -> Seq<Seq<PanelInstance>> {
    order.map_values(
        |i: usize|
            if gs[i as int].instances@.len() > 0 {
                gs[i as int].instances@.drop_first()
            } else {
                Seq::<PanelInstance>::empty()
            },
    )
}

/// The widths of the groups.
pub open spec fn widths_of(gs: Seq<PanelGroup>) -> Seq<u64> {
    gs.map_values(|g: PanelGroup| g.width as u64)
}

/// The heights of the groups.
pub open spec fn heights_of(gs: Seq<PanelGroup>) -> Seq<u64> {
    gs.map_values(|g: PanelGroup| g.height as u64)
}

/// The panel order of the groups taken in a stable order of `keys`.
pub open spec fn sorted_by(gs: Seq<PanelGroup>, keys: Seq<u64>, desc: bool, r: Seq<PanelInstance>) -> bool {
    exists|o: Seq<usize>| is_stable_order(o, keys, desc) && r == concat(ordered_instances(gs, o))
}

/// One instance of each group by decreasing area (stable), then the
/// remaining instances of each group in the same group order.
pub open spec fn mixed(gs: Seq<PanelGroup>, r: Seq<PanelInstance>) -> bool {
    exists|o: Seq<usize>| is_stable_order(o, areas_of(gs), true) && r == concat(heads(gs, o)) + concat(tails(gs, o))
}

/// The five panel orders tried for non-empty `gs`: by area descending, by
/// area ascending, by width descending, by height descending (each a
/// stable sort of the groups), and the mixed order.
pub open spec fn strategies(gs: Seq<PanelGroup>, r: Seq<Seq<PanelInstance>>) -> bool {
    &&& r.len() == 5
    &&& sorted_by(gs, areas_of(gs), true, r[0])
    &&& sorted_by(gs, areas_of(gs), false, r[1])
    &&& sorted_by(gs, widths_of(gs), true, r[2])
    &&& sorted_by(gs, heights_of(gs), true, r[3])
    &&& mixed(gs, r[4])
}

fn group_widths(gs: &[PanelGroup]) -> (a: Vec<u64>)
    ensures
        a@ == widths_of(gs@),
{
    let mut a: Vec<u64> = Vec::new();
    let mut i: usize = 0;
    while i < gs.len()
        invariant
            i <= gs@.len(),
            a@ == widths_of(gs@).take(i as int),
        decreases gs@.len() - i,
    {
        a.push(gs[i].width as u64);
        proof {
            assert(a@ =~= widths_of(gs@).take(i + 1));
        }
        i = i + 1;
    }
    a
}

fn group_heights(gs: &[PanelGroup]) -> (a: Vec<u64>)
    ensures
        a@ == heights_of(gs@),
{
    let mut a: Vec<u64> = Vec::new();
    let mut i: usize = 0;
    while i < gs.len()
        invariant
            i <= gs@.len(),
            a@ == heights_of(gs@).take(i as int),
        decreases gs@.len() - i,
    {
        a.push(gs[i].height as u64);
        proof {
            assert(a@ =~= heights_of(gs@).take(i + 1));
        }
        i = i + 1;
    }
    a
}

/// The instances of the groups in `order`, group after group.
fn flatten_ordered(gs: &[PanelGroup], order: &Vec<usize>) -> (r: Vec<PanelInstance>)
    requires
        forall|k: int| 0 <= k < order@.len() ==> (#[trigger] order@[k]) < gs@.len(),
    ensures
        r@ == concat(ordered_instances(gs@, order@)),
{
    let mut r: Vec<PanelInstance> = Vec::new();
    let mut k: usize = 0;
    while k < order.len()
        invariant
            forall|k: int| 0 <= k < order@.len() ==> (#[trigger] order@[k]) < gs@.len(),
            k <= order@.len(),
            r@ == concat(ordered_instances(gs@, order@).take(k as int)),
        decreases order@.len() - k,
    {
        let v = gs[order[k]].get_all_instances();
        push_range(&mut r, v, 0, v.len());
        proof {
            assert(v@.subrange(0, v@.len() as int) =~= v@);
            assert(ordered_instances(gs@, order@).take(k + 1).drop_last() =~= ordered_instances(gs@, order@).take(
                k as int,
            ));
        }
        k = k + 1;
    }
    proof {
        assert(ordered_instances(gs@, order@).take(k as int) =~= ordered_instances(gs@, order@));
    }
    r
}

/// One representative of each group in `order`, then the remaining
/// instances of each group in the same order.
fn mixed_ordered(gs: &[PanelGroup], order: &Vec<usize>) -> (r: Vec<PanelInstance>)
    requires
        forall|k: int| 0 <= k < order@.len() ==> (#[trigger] order@[k]) < gs@.len(),
    ensures
        r@ == concat(heads(gs@, order@)) + concat(tails(gs@, order@)),
{
    let mut r: Vec<PanelInstance> = Vec::new();
    let mut k: usize = 0;
    while k < order.len()
        invariant
            forall|k: int| 0 <= k < order@.len() ==> (#[trigger] order@[k]) < gs@.len(),
            k <= order@.len(),
            r@ == concat(heads(gs@, order@).take(k as int)),
        decreases order@.len() - k,
    {
        let g = &gs[order[k]];
        if let Some(first) = g.get_representative() {
            r.push(*first);
        }
        proof {
            assert(heads(gs@, order@).take(k + 1).drop_last() =~= heads(gs@, order@).take(k as int));
            assert(r@ =~= concat(heads(gs@, order@).take(k as int)) + heads(gs@, order@)[k as int]);
        }
        k = k + 1;
    }
    proof {
        assert(heads(gs@, order@).take(k as int) =~= heads(gs@, order@));
    }
    let ghost front = r@;
    let mut k: usize = 0;
    while k < order.len()
        invariant
            forall|k: int| 0 <= k < order@.len() ==> (#[trigger] order@[k]) < gs@.len(),
            k <= order@.len(),
            r@ == front + concat(tails(gs@, order@).take(k as int)),
        decreases order@.len() - k,
    {
        let v = gs[order[k]].get_all_instances();
        if v.len() > 0 {
            push_range(&mut r, v, 1, v.len());
            proof {
                assert(v@.subrange(1, v@.len() as int) =~= v@.drop_first());
            }
        }
        proof {
            assert(tails(gs@, order@).take(k + 1).drop_last() =~= tails(gs@, order@).take(k as int));
            assert(r@ =~= front + concat(tails(gs@, order@).take(k as int)) + tails(gs@, order@)[k as int]);
        }
        k = k + 1;
    }
    proof {
        assert(tails(gs@, order@).take(k as int) =~= tails(gs@, order@));
    }
    r
}

impl PermutationGenerator {
    /// The same grouping as `PanelGrouper::group_panels`.
    pub fn group_panels(panels: &[PanelInstance]) -> (r: Vec<PanelGroup>)
        ensures
            groups_of(panels@, r@),
            by_area_desc(r@),
    {
        PanelGrouper::group_panels(panels)
    }

    /// The instances of the groups, groups stably sorted by area.
    fn create_permutation_by_area(groups: &[PanelGroup], descending: bool) -> (r: Vec<PanelInstance>)
        ensures
            sorted_by(groups@, areas_of(groups@), descending, r@),
    {
        let keys = group_areas(groups);
        let order = stable_order(&keys, descending);
        flatten_ordered(groups, &order)
    }

    /// The instances of the groups, groups stably sorted by width.
    fn create_permutation_by_width(groups: &[PanelGroup], descending: bool) -> (r: Vec<PanelInstance>)
        ensures
            sorted_by(groups@, widths_of(groups@), descending, r@),
    {
        let keys = group_widths(groups);
        let order = stable_order(&keys, descending);
        flatten_ordered(groups, &order)
    }

    /// The instances of the groups, groups stably sorted by height.
    fn create_permutation_by_height(groups: &[PanelGroup], descending: bool) -> (r: Vec<PanelInstance>)
        ensures
            sorted_by(groups@, heights_of(groups@), descending, r@),
    {
        let keys = group_heights(groups);
        let order = stable_order(&keys, descending);
        flatten_ordered(groups, &order)
    }

    /// One instance of each group (larger areas first), then the rest.
    fn create_mixed_permutation(groups: &[PanelGroup]) -> (r: Vec<PanelInstance>)
        ensures
            mixed(groups@, r@),
    {
        let keys = group_areas(groups);
        let order = stable_order(&keys, true);
        mixed_ordered(groups, &order)
    }

    /// The panel orders to try: for no groups a single empty order,
    /// otherwise the five orders of `strategies`.
    pub fn generate_permutations(groups: Vec<PanelGroup>) -> (r: Vec<Vec<PanelInstance>>)
        ensures
            groups@.len() == 0 ==> nested_view(r@) == seq![Seq::<PanelInstance>::empty()],
            groups@.len() > 0 ==> strategies(groups@, nested_view(r@)),
    {
        let mut r: Vec<Vec<PanelInstance>> = Vec::new();
        if groups.len() == 0 {
            r.push(Vec::new());
            proof {
                assert(nested_view(r@) =~= seq![Seq::<PanelInstance>::empty()]);
            }
            return r;
        }
        let gs = groups.as_slice();
        r.push(Self::create_permutation_by_area(gs, true));
        r.push(Self::create_permutation_by_area(gs, false));
        r.push(Self::create_permutation_by_width(gs, true));
        r.push(Self::create_permutation_by_height(gs, true));
        r.push(Self::create_mixed_permutation(gs));
        proof {
            assert(nested_view(r@).len() == 5);
            assert(nested_view(r@)[0] == r@[0]@);
            assert(nested_view(r@)[1] == r@[1]@);
            assert(nested_view(r@)[2] == r@[2]@);
            assert(nested_view(r@)[3] == r@[3]@);
            assert(nested_view(r@)[4] == r@[4]@);
            assert(groups@ == gs@);
        }
        r
    }
}

proof fn lemma_count_in_add(a: Seq<Seq<PanelInstance>>, b: Seq<Seq<PanelInstance>>, x: PanelInstance)
    ensures
        count_in(a + b, x) == count_in(a, x) + count_in(b, x),
    decreases b.len(),
{
    if b.len() == 0 {
        assert(a + b =~= a);
    } else {
        lemma_count_in_add(a, b.drop_last(), x);
        assert((a + b).drop_last() =~= a + b.drop_last());
        assert((a + b).last() == b.last());
    }
}

proof fn lemma_count_in_remove(ss: Seq<Seq<PanelInstance>>, p: int, x: PanelInstance)
    requires
        0 <= p < ss.len(),
    ensures
        count_in(ss, x) == count_in(ss.remove(p), x) + ss[p].to_multiset().count(x),
{
    let a = ss.take(p);
    let b = ss.skip(p + 1);
    assert(ss =~= a + seq![ss[p]] + b);
    assert(ss.remove(p) =~= a + b);
    lemma_count_in_add(a + seq![ss[p]], b, x);
    lemma_count_in_add(a, seq![ss[p]], x);
    lemma_count_in_add(a, b, x);
    let single = seq![ss[p]];
    assert(count_in(single, x) == ss[p].to_multiset().count(x)) by {
        assert(single.drop_last() =~= Seq::<Seq<PanelInstance>>::empty());
        assert(single.last() == ss[p]);
        assert(count_in(single.drop_last(), x) == 0);
    }
}

/// Taking the groups in any order that lists each once leaves the
/// instances, counted together, unchanged.
proof fn lemma_perm_count(gs: Seq<PanelGroup>, order: Seq<usize>, n: int, x: PanelInstance)
    requires
        0 <= n <= gs.len(),
        is_permutation(order, n),
    ensures
        count_in(ordered_instances(gs, order), x) == count_in(instances_of(gs.take(n)), x),
    decreases n,
{
    if n == 0 {
        assert(ordered_instances(gs, order) =~= Seq::<Seq<PanelInstance>>::empty());
        assert(instances_of(gs.take(n)) =~= Seq::<Seq<PanelInstance>>::empty());
    } else {
        lemma_perm_covers(order, n, n - 1);
        let p = choose|k: int| 0 <= k < order.len() && order[k] == n - 1;
        let rest = order.remove(p);
        assert forall|i: int| 0 <= i < rest.len() implies (#[trigger] rest[i]) < n - 1 by {
            if i < p {
                assert(rest[i] == order[i]);
                assert(order[i] != order[p]);
            } else {
                assert(rest[i] == order[i + 1]);
                assert(order[p] != order[i + 1]);
            }
        }
        assert forall|i: int, j: int| 0 <= i < j < rest.len() implies (#[trigger] rest[i]) != (#[trigger] rest[j]) by {
            let a = if i < p { i } else { i + 1 };
            let b = if j < p { j } else { j + 1 };
            assert(rest[i] == order[a] && rest[j] == order[b]);
        }
        lemma_perm_count(gs, rest, n - 1, x);
        assert(ordered_instances(gs, rest) =~= ordered_instances(gs, order).remove(p));
        lemma_count_in_remove(ordered_instances(gs, order), p, x);
        assert(instances_of(gs.take(n)).drop_last() =~= instances_of(gs.take(n - 1)));
        assert(instances_of(gs.take(n)).last() == gs[n - 1].instances@);
    }
}

proof fn lemma_heads_tails_count(gs: Seq<PanelGroup>, order: Seq<usize>, x: PanelInstance)
    ensures
        count_in(heads(gs, order), x) + count_in(tails(gs, order), x) == count_in(ordered_instances(gs, order), x),
    decreases order.len(),
{
    broadcast use vstd::seq_lib::group_to_multiset_ensures;
    if order.len() > 0 {
        let init = order.drop_last();
        lemma_heads_tails_count(gs, init, x);
        assert(heads(gs, order).drop_last() =~= heads(gs, init));
        assert(tails(gs, order).drop_last() =~= tails(gs, init));
        assert(ordered_instances(gs, order).drop_last() =~= ordered_instances(gs, init));
        let v = gs[order.last() as int].instances@;
        if v.len() > 0 {
            assert(v =~= seq![v[0]] + v.drop_first());
            vstd::seq_lib::lemma_multiset_commutative(seq![v[0]], v.drop_first());
        } else {
            assert(!Seq::<PanelInstance>::empty().contains(x));
            assert(!v.contains(x));
        }
    }
}

/// Every panel order tried holds each panel instance of the groups exactly
/// as often as the groups do: no instance is lost or repeated.
pub proof fn law_strategies_keep_every_instance(gs: Seq<PanelGroup>, r: Seq<Seq<PanelInstance>>)
    requires
        strategies(gs, r),
    ensures
        forall|k: int| 0 <= k < 5 ==> (#[trigger] r[k]).to_multiset() =~= concat(instances_of(gs)).to_multiset(),
{
    let o1 = choose|o: Seq<usize>| is_stable_order(o, areas_of(gs), true) && r[0] == concat(ordered_instances(gs, o));
    let o2 = choose|o: Seq<usize>| is_stable_order(o, areas_of(gs), false) && r[1] == concat(ordered_instances(gs, o));
    let o3 = choose|o: Seq<usize>| is_stable_order(o, widths_of(gs), true) && r[2] == concat(ordered_instances(gs, o));
    let o4 = choose|o: Seq<usize>| is_stable_order(o, heights_of(gs), true) && r[3] == concat(ordered_instances(gs, o));
    let o5 = choose|o: Seq<usize>| is_stable_order(o, areas_of(gs), true) && r[4] == concat(heads(gs, o)) + concat(tails(gs, o));
    let n = gs.len() as int;
    assert(gs.take(n) =~= gs);
    assert forall|k: int| 0 <= k < 5 implies (#[trigger] r[k]).to_multiset() =~= concat(instances_of(gs)).to_multiset() by {
        assert forall|x: PanelInstance| r[k].to_multiset().count(x) == concat(instances_of(gs)).to_multiset().count(x) by {
            lemma_concat_count(instances_of(gs), x);
            if k == 0 {
                lemma_perm_count(gs, o1, n, x);
                lemma_concat_count(ordered_instances(gs, o1), x);
            } else if k == 1 {
                lemma_perm_count(gs, o2, n, x);
                lemma_concat_count(ordered_instances(gs, o2), x);
            } else if k == 2 {
                lemma_perm_count(gs, o3, n, x);
                lemma_concat_count(ordered_instances(gs, o3), x);
            } else if k == 3 {
                lemma_perm_count(gs, o4, n, x);
                lemma_concat_count(ordered_instances(gs, o4), x);
            } else {
                lemma_perm_count(gs, o5, n, x);
                lemma_heads_tails_count(gs, o5, x);
                lemma_concat_count(heads(gs, o5), x);
                lemma_concat_count(tails(gs, o5), x);
                vstd::seq_lib::lemma_multiset_commutative(concat(heads(gs, o5)), concat(tails(gs, o5)));
            }
        }
    }
}

proof fn lemma_dedup_from_input(ps: Seq<Seq<TileDimensions>>)
    ensures
        forall|i: int| 0 <= i < dedup_by_hash(ps).len() ==> hash_seen(ps, perm_hash(#[trigger] dedup_by_hash(ps)[i])),
    decreases ps.len(),
{
    if ps.len() > 0 {
        let init = ps.drop_last();
        lemma_dedup_from_input(init);
        let d = dedup_by_hash(init);
        assert forall|i: int| 0 <= i < dedup_by_hash(ps).len() implies hash_seen(
            ps,
            perm_hash(#[trigger] dedup_by_hash(ps)[i]),
        ) by {
            if i < d.len() {
                assert(dedup_by_hash(ps)[i] == d[i]);
                assert(hash_seen(init, perm_hash(d[i])));
                let j = choose|j: int| 0 <= j < init.len() && perm_hash(#[trigger] init[j]) == perm_hash(d[i]);
                assert(ps[j] == init[j]);
            } else {
                assert(dedup_by_hash(ps)[i] == ps.last());
                assert(ps[ps.len() - 1] == ps.last());
            }
        }
    }
}

/// After dropping repeats, no two kept orders share a size-based hash.
pub proof fn law_kept_orders_have_distinct_hashes(ps: Seq<Seq<TileDimensions>>)
    ensures
        forall|i: int, j: int|
            0 <= i < j < dedup_by_hash(ps).len() ==> perm_hash(#[trigger] dedup_by_hash(ps)[i]) != perm_hash(
                #[trigger] dedup_by_hash(ps)[j],
            ),
    decreases ps.len(),
{
    if ps.len() > 0 {
        let init = ps.drop_last();
        law_kept_orders_have_distinct_hashes(init);
        lemma_dedup_from_input(init);
        let d = dedup_by_hash(init);
        assert forall|i: int, j: int| 0 <= i < j < dedup_by_hash(ps).len() implies perm_hash(
            #[trigger] dedup_by_hash(ps)[i],
        ) != perm_hash(#[trigger] dedup_by_hash(ps)[j]) by {
            if j < d.len() {
                assert(dedup_by_hash(ps)[i] == d[i]);
                assert(dedup_by_hash(ps)[j] == d[j]);
            } else {
                assert(dedup_by_hash(ps)[i] == d[i]);
                assert(!hash_seen(init, perm_hash(ps.last())));
                assert(hash_seen(init, perm_hash(d[i])));
            }
        }
    }
}

/// Dropping repeats loses no hash: every order's hash is the hash of some
/// kept order.
pub proof fn law_every_hash_is_kept(ps: Seq<Seq<TileDimensions>>)
    ensures
        forall|j: int| 0 <= j < ps.len() ==> hash_seen(dedup_by_hash(ps), perm_hash(#[trigger] ps[j])),
    decreases ps.len(),
{
    if ps.len() > 0 {
        let init = ps.drop_last();
        law_every_hash_is_kept(init);
        let d = dedup_by_hash(init);
        assert forall|j: int| 0 <= j < ps.len() implies hash_seen(dedup_by_hash(ps), perm_hash(#[trigger] ps[j])) by {
            if j < init.len() {
                assert(ps[j] == init[j]);
                assert(hash_seen(d, perm_hash(init[j])));
                let i = choose|i: int| 0 <= i < d.len() && perm_hash(#[trigger] d[i]) == perm_hash(init[j]);
                assert(dedup_by_hash(ps)[i] == d[i]);
            } else {
                assert(ps[j] == ps.last());
                if hash_seen(init, perm_hash(ps.last())) {
                    let k = choose|k: int| 0 <= k < init.len() && perm_hash(#[trigger] init[k]) == perm_hash(ps.last());
                    assert(hash_seen(d, perm_hash(init[k])));
                    let i = choose|i: int| 0 <= i < d.len() && perm_hash(#[trigger] d[i]) == perm_hash(init[k]);
                    assert(dedup_by_hash(ps)[i] == d[i]);
                } else {
                    assert(dedup_by_hash(ps)[d.len() as int] == ps.last());
                }
            }
        }
    }
}

/// The tiles of the grouped panels, in order.
pub open spec fn tiles_of(os: Seq<GroupedTileDimensions>) -> Seq<TileDimensions> {
    os.map_values(|g: GroupedTileDimensions| g.tile_dimensions)
}

/// How often `x` is among the tiles of `os` in the group of `g`.
pub open spec fn group_count(g: GroupedTileDimensions, os: Seq<GroupedTileDimensions>, x: TileDimensions) -> nat {
    matching_tiles(os, g).to_multiset().count(x)
}

/// The sum of `group_count` over the groups of `p`.
pub open spec fn sum_counts(p: Seq<GroupedTileDimensions>, os: Seq<GroupedTileDimensions>, x: TileDimensions) -> nat
    decreases p.len(),
{
    if p.len() == 0 {
        0
    } else {
        sum_counts(p.drop_last(), os, x) + group_count(p.last(), os, x)
    }
}

/// How many groups of `r` the grouped panel `y` belongs to.
pub open spec fn n_matching(r: Seq<GroupedTileDimensions>, y: GroupedTileDimensions) -> nat
    decreases r.len(),
{
    if r.len() == 0 {
        0
    } else {
        n_matching(r.drop_last(), y) + if groups_match_spec(r.last(), y) { 1nat } else { 0nat }
    }
}

proof fn lemma_tiles_for_count(p: Seq<GroupedTileDimensions>, os: Seq<GroupedTileDimensions>, x: TileDimensions)
    ensures
        tiles_for(p, os).to_multiset().count(x) == sum_counts(p, os, x),
    decreases p.len(),
{
    broadcast use vstd::seq_lib::group_to_multiset_ensures;
    if p.len() == 0 {
        assert(!tiles_for(p, os).contains(x));
    } else {
        lemma_tiles_for_count(p.drop_last(), os, x);
        vstd::seq_lib::lemma_multiset_commutative(tiles_for(p.drop_last(), os), matching_tiles(os, p.last()));
    }
}

proof fn lemma_sum_counts_add(a: Seq<GroupedTileDimensions>, b: Seq<GroupedTileDimensions>, os: Seq<GroupedTileDimensions>, x: TileDimensions)
    ensures
        sum_counts(a + b, os, x) == sum_counts(a, os, x) + sum_counts(b, os, x),
    decreases b.len(),
{
    if b.len() == 0 {
        assert(a + b =~= a);
    } else {
        lemma_sum_counts_add(a, b.drop_last(), os, x);
        assert((a + b).drop_last() =~= a + b.drop_last());
        assert((a + b).last() == b.last());
    }
}

proof fn lemma_sum_counts_remove(s: Seq<GroupedTileDimensions>, k: int, os: Seq<GroupedTileDimensions>, x: TileDimensions)
    requires
        0 <= k < s.len(),
    ensures
        sum_counts(s, os, x) == sum_counts(s.remove(k), os, x) + group_count(s[k], os, x),
{
    let a = s.take(k);
    let b = s.skip(k + 1);
    let single = seq![s[k]];
    assert(s =~= a + single + b);
    assert(s.remove(k) =~= a + b);
    lemma_sum_counts_add(a + single, b, os, x);
    lemma_sum_counts_add(a, single, os, x);
    lemma_sum_counts_add(a, b, os, x);
    assert(sum_counts(single, os, x) == group_count(s[k], os, x)) by {
        assert(single.drop_last() =~= Seq::<GroupedTileDimensions>::empty());
        assert(single.last() == s[k]);
        assert(sum_counts(single.drop_last(), os, x) == 0);
    }
}

/// The sum over a list of groups depends only on which groups it holds.
proof fn lemma_sum_counts_perm(p1: Seq<GroupedTileDimensions>, p2: Seq<GroupedTileDimensions>, os: Seq<GroupedTileDimensions>, x: TileDimensions)
    requires
        p1.to_multiset() == p2.to_multiset(),
    ensures
        sum_counts(p1, os, x) == sum_counts(p2, os, x),
    decreases p1.len(),
{
    broadcast use vstd::seq_lib::group_to_multiset_ensures;
    broadcast use vstd::multiset::group_multiset_axioms;
    if p1.len() == 0 {
        assert(p1.to_multiset().len() == p1.len());
        assert(p2.to_multiset().len() == p2.len());
    } else {
        let y = p1.last();
        let init = p1.drop_last();
        assert(p1 =~= init.push(y));
        assert(p1.to_multiset().count(y) > 0);
        assert(p2.contains(y));
        let k = choose|k: int| 0 <= k < p2.len() && p2[k] == y;
        let rest = p2.remove(k);
        assert(rest.to_multiset() =~= p2.to_multiset().remove(y));
        assert(init.to_multiset() =~= p1.to_multiset().remove(y));
        lemma_sum_counts_perm(init, rest, os, x);
        lemma_sum_counts_remove(p2, k, os, x);
    }
}

proof fn lemma_sum_counts_step(r: Seq<GroupedTileDimensions>, os: Seq<GroupedTileDimensions>, x: TileDimensions)
    requires
        os.len() > 0,
    ensures
        sum_counts(r, os, x) == sum_counts(r, os.drop_last(), x) + (if os.last().tile_dimensions == x {
            n_matching(r, os.last())
        } else {
            0
        }),
    decreases r.len(),
{
    broadcast use vstd::seq_lib::group_to_multiset_ensures;
    broadcast use vstd::multiset::group_multiset_axioms;
    if r.len() > 0 {
        lemma_sum_counts_step(r.drop_last(), os, x);
        let g = r.last();
        let init = os.drop_last();
        if groups_match_spec(g, os.last()) {
            assert(matching_tiles(os, g) =~= matching_tiles(init, g).push(os.last().tile_dimensions));
        } else {
            assert(matching_tiles(os, g) =~= matching_tiles(init, g));
        }
    }
}

proof fn lemma_sum_counts_zero(r: Seq<GroupedTileDimensions>, x: TileDimensions)
    ensures
        sum_counts(r, Seq::<GroupedTileDimensions>::empty(), x) == 0,
    decreases r.len(),
{
    broadcast use vstd::seq_lib::group_to_multiset_ensures;
    if r.len() > 0 {
        lemma_sum_counts_zero(r.drop_last(), x);
        assert(!matching_tiles(Seq::<GroupedTileDimensions>::empty(), r.last()).contains(x));
    }
}

/// When every grouped panel belongs to exactly one group of `r`, the
/// groups of `r` together hold each tile exactly as often as `os` does.
proof fn lemma_sum_counts_classes(r: Seq<GroupedTileDimensions>, os: Seq<GroupedTileDimensions>, x: TileDimensions)
    requires
        forall|k: int| 0 <= k < os.len() ==> n_matching(r, #[trigger] os[k]) == 1,
    ensures
        sum_counts(r, os, x) == tiles_of(os).to_multiset().count(x),
    decreases os.len(),
{
    broadcast use vstd::seq_lib::group_to_multiset_ensures;
    broadcast use vstd::multiset::group_multiset_axioms;
    if os.len() == 0 {
        lemma_sum_counts_zero(r, x);
        assert(os =~= Seq::<GroupedTileDimensions>::empty());
        assert(!tiles_of(os).contains(x));
    } else {
        let init = os.drop_last();
        assert forall|k: int| 0 <= k < init.len() implies n_matching(r, #[trigger] init[k]) == 1 by {
            assert(init[k] == os[k]);
        }
        lemma_sum_counts_classes(r, init, x);
        lemma_sum_counts_step(r, os, x);
        assert(n_matching(r, os[os.len() - 1]) == 1);
        assert(tiles_of(os) =~= tiles_of(init).push(os.last().tile_dimensions));
    }
}

proof fn lemma_n_matching_none(r: Seq<GroupedTileDimensions>, y: GroupedTileDimensions)
    requires
        forall|i: int| 0 <= i < r.len() ==> !groups_match_spec(#[trigger] r[i], y),
    ensures
        n_matching(r, y) == 0,
    decreases r.len(),
{
    if r.len() > 0 {
        assert forall|i: int| 0 <= i < r.drop_last().len() implies !groups_match_spec(#[trigger] r.drop_last()[i], y) by {
            assert(r.drop_last()[i] == r[i]);
        }
        lemma_n_matching_none(r.drop_last(), y);
        assert(!groups_match_spec(r[r.len() - 1], y));
    }
}

proof fn lemma_n_matching_one(r: Seq<GroupedTileDimensions>, y: GroupedTileDimensions, i0: int)
    requires
        0 <= i0 < r.len(),
        groups_match_spec(r[i0], y),
        forall|i: int| 0 <= i < r.len() && i != i0 ==> !groups_match_spec(#[trigger] r[i], y),
    ensures
        n_matching(r, y) == 1,
    decreases r.len(),
{
    let init = r.drop_last();
    if i0 == r.len() - 1 {
        assert forall|i: int| 0 <= i < init.len() implies !groups_match_spec(#[trigger] init[i], y) by {
            assert(init[i] == r[i]);
        }
        lemma_n_matching_none(init, y);
    } else {
        assert(init[i0] == r[i0]);
        assert forall|i: int| 0 <= i < init.len() && i != i0 implies !groups_match_spec(#[trigger] init[i], y) by {
            assert(init[i] == r[i]);
        }
        lemma_n_matching_one(init, y, i0);
        assert(!groups_match_spec(r[r.len() - 1], y));
    }
}

/// Each grouped panel belongs to exactly one of the first occurrences.
proof fn lemma_first_occurrences_classes(os: Seq<GroupedTileDimensions>)
    ensures
        forall|k: int| 0 <= k < os.len() ==> n_matching(first_occurrences(os), #[trigger] os[k]) == 1,
{
    lemma_first_occurrences_props(os);
    let r = first_occurrences(os);
    assert forall|k: int| 0 <= k < os.len() implies n_matching(r, #[trigger] os[k]) == 1 by {
        assert(has_match(r, os[k]));
        let i0 = choose|i: int| 0 <= i < r.len() && groups_match_spec(#[trigger] r[i], os[k]);
        assert forall|i: int| 0 <= i < r.len() && i != i0 implies !groups_match_spec(#[trigger] r[i], os[k]) by {
            if groups_match_spec(r[i], os[k]) {
                if i < i0 {
                    assert(!groups_match_spec(r[i], r[i0]));
                } else {
                    assert(!groups_match_spec(r[i0], r[i]));
                }
            }
        }
        lemma_n_matching_one(r, os[k], i0);
    }
}

proof fn lemma_dedup_elements(ps: Seq<Seq<TileDimensions>>)
    ensures
        forall|i: int| 0 <= i < dedup_by_hash(ps).len() ==> ps.contains(#[trigger] dedup_by_hash(ps)[i]),
    decreases ps.len(),
{
    if ps.len() > 0 {
        let init = ps.drop_last();
        lemma_dedup_elements(init);
        let d = dedup_by_hash(init);
        assert forall|i: int| 0 <= i < dedup_by_hash(ps).len() implies ps.contains(#[trigger] dedup_by_hash(ps)[i]) by {
            if i < d.len() {
                assert(dedup_by_hash(ps)[i] == d[i]);
                let j = choose|j: int| 0 <= j < init.len() && init[j] == d[i];
                assert(ps[j] == init[j]);
            } else {
                assert(dedup_by_hash(ps)[i] == ps.last());
                assert(ps[ps.len() - 1] == ps.last());
            }
        }
    }
}

/// Every panel order produced from the groups holds each panel's tile
/// exactly as often as the input does: no panel is lost or repeated.
pub proof fn law_every_order_holds_each_panel_once(
    os: Seq<GroupedTileDimensions>,
    sorted: Seq<GroupedTileDimensions>,
    r: Seq<Seq<TileDimensions>>,
)
    requires
        sorted.to_multiset() == first_occurrences(os).to_multiset(),
        r == dedup_by_hash(convert_spec(group_perms_spec(sorted), os)),
    ensures
        forall|k: int| 0 <= k < r.len() ==> (#[trigger] r[k]).to_multiset() =~= tiles_of(os).to_multiset(),
{
    broadcast use vstd::seq_lib::group_to_multiset_ensures;
    broadcast use vstd::multiset::group_multiset_axioms;
    let gps = group_perms_spec(sorted);
    let all = convert_spec(gps, os);
    lemma_dedup_elements(all);
    lemma_first_occurrences_classes(os);
    let m = permuted_count(sorted.len() as int);
    lemma_arrangements_are_permutations(sorted.take(m));
    assert forall|k: int| 0 <= k < r.len() implies (#[trigger] r[k]).to_multiset() =~= tiles_of(os).to_multiset() by {
        assert(all.contains(r[k]));
        let j = choose|j: int| 0 <= j < all.len() && all[j] == r[k];
        let gp = gps[j];
        assert(all[j] == tiles_for(gp, os));
        let a = arrangements(sorted.take(m))[j];
        assert(gp == a + sorted.skip(m));
        assert(gp.to_multiset() =~= sorted.to_multiset()) by {
            vstd::seq_lib::lemma_multiset_commutative(a, sorted.skip(m));
            vstd::seq_lib::lemma_multiset_commutative(sorted.take(m), sorted.skip(m));
            assert(sorted.take(m) + sorted.skip(m) =~= sorted);
        }
        assert forall|x: TileDimensions| r[k].to_multiset().count(x) == tiles_of(os).to_multiset().count(x) by {
            lemma_tiles_for_count(gp, os, x);
            lemma_sum_counts_perm(gp, first_occurrences(os), os, x);
            lemma_sum_counts_classes(first_occurrences(os), os, x);
        }
    }
}

} // verus!
