//! Gathering of panel instances into groups of equal effective size and
//! rotation, larger groups first.
use vstd::prelude::*;
use crate::features::input::{effective_dims, PanelGroup, PanelInstance};

verus! {

/// Groups panel instances and flattens groups back into instances.
pub struct PanelGrouper;

/// What identifies a panel's group: its effective width and height and
/// whether it is rotated.
pub open spec fn panel_key(p: PanelInstance) -> (u32, u32, bool) {
    (effective_dims(p).0, effective_dims(p).1, p.is_rotated)
}

/// The instances of `ps` whose group is `k`, in their order in `ps`.
pub open spec fn members(ps: Seq<PanelInstance>, k: (u32, u32, bool)) -> Seq<PanelInstance>
    decreases ps.len(),
{
    if ps.len() == 0 {
        Seq::empty()
    } else if panel_key(ps.last()) == k {
        members(ps.drop_last(), k).push(ps.last())
    } else {
        members(ps.drop_last(), k)
    }
}

/// The area of a group's panels.
pub open spec fn group_area(g: PanelGroup) -> int {
    g.width * g.height
}

/// `gs` holds one group per distinct key of `ps`, each with exactly the
/// instances of `ps` of that key, in input order.
pub open spec fn groups_of(ps: Seq<PanelInstance>, gs: Seq<PanelGroup>) -> bool {
    &&& forall|i: int|
        0 <= i < gs.len() ==> {
            &&& (#[trigger] gs[i]).wf()
            &&& gs[i].instances@ == members(ps, gs[i].key())
            &&& gs[i].instances@.len() > 0
        }
    &&& forall|i: int, j: int| 0 <= i < j < gs.len() ==> (#[trigger] gs[i]).key() != (#[trigger] gs[j]).key()
    &&& forall|k: int| 0 <= k < ps.len() ==> has_group(gs, panel_key(#[trigger] ps[k]))
}

/// Some group of `gs` has key `k`.
pub open spec fn has_group(gs: Seq<PanelGroup>, k: (u32, u32, bool)) -> bool {
    exists|i: int| 0 <= i < gs.len() && (#[trigger] gs[i]).key() == k
}

/// Larger areas first.
pub open spec fn by_area_desc(gs: Seq<PanelGroup>) -> bool {
    forall|i: int, j: int| 0 <= i < j < gs.len() ==> group_area(#[trigger] gs[i]) >= group_area(#[trigger] gs[j])
}

proof fn lemma_members_len(ps: Seq<PanelInstance>, k: (u32, u32, bool))
    ensures
        members(ps, k).len() <= ps.len(),
    decreases ps.len(),
{
    if ps.len() > 0 {
        lemma_members_len(ps.drop_last(), k);
    }
}

proof fn lemma_members_empty(ps: Seq<PanelInstance>, k: (u32, u32, bool))
    requires
        forall|q: int| 0 <= q < ps.len() ==> panel_key(#[trigger] ps[q]) != k,
    ensures
        members(ps, k) == Seq::<PanelInstance>::empty(),
    decreases ps.len(),
{
    if ps.len() > 0 {
        lemma_members_empty(ps.drop_last(), k);
    }
}

/// `a` must come strictly before `b`: larger first when `desc`, smaller
/// first otherwise.
pub open spec fn precedes(a: u64, b: u64, desc: bool) -> bool {
    if desc {
        a > b
    } else {
        a < b
    }
}

fn goes_before(a: u64, b: u64, desc: bool) -> (r: bool)
    ensures
        r == precedes(a, b, desc),
{
    if desc {
        a > b
    } else {
        a < b
    }
}

/// `order` lists the indices of `keys` once each, ordered by key, with
/// equal keys kept in index order: the result of a stable sort.
pub open spec fn is_stable_order(order: Seq<usize>, keys: Seq<u64>, desc: bool) -> bool {
    &&& order.len() == keys.len()
    &&& forall|i: int| 0 <= i < order.len() ==> (#[trigger] order[i]) < keys.len()
    &&& forall|i: int, j: int| 0 <= i < j < order.len() ==> (#[trigger] order[i]) != (#[trigger] order[j])
    &&& forall|i: int, j: int|
        0 <= i < j < order.len() ==> !precedes(keys[#[trigger] order[j] as int], keys[#[trigger] order[i] as int], desc)
    &&& forall|i: int, j: int|
        0 <= i < j < order.len() && keys[#[trigger] order[i] as int] == keys[#[trigger] order[j] as int] ==> order[i] < order[j]
}

/// The positions of `keys` in stably sorted order.
pub(crate) fn stable_order(keys: &Vec<u64>, desc: bool) -> (order: Vec<usize>)
    ensures
        is_stable_order(order@, keys@, desc),
{
    let mut order: Vec<usize> = Vec::new();
    let mut i: usize = 0;
    while i < keys.len()
        invariant
            i <= keys.len(),
            order@.len() == i,
            forall|q: int| 0 <= q < order@.len() ==> (#[trigger] order@[q]) < i,
            forall|a: int, b: int| 0 <= a < b < order@.len() ==> (#[trigger] order@[a]) != (#[trigger] order@[b]),
            forall|a: int, b: int|
                0 <= a < b < order@.len() ==> !precedes(keys@[#[trigger] order@[b] as int], keys@[#[trigger] order@[a] as int], desc),
            forall|a: int, b: int|
                0 <= a < b < order@.len() && keys@[#[trigger] order@[a] as int] == keys@[#[trigger] order@[b] as int]
                    ==> order@[a] < order@[b],
        decreases keys.len() - i,
    {
        let k = keys[i];
        let mut p: usize = 0;
        while p < order.len() && !goes_before(k, keys[order[p]], desc)
            invariant
                p <= order@.len(),
                forall|q: int| 0 <= q < order@.len() ==> (#[trigger] order@[q]) < i,
                i < keys@.len(),
                k == keys@[i as int],
                forall|q: int| 0 <= q < p ==> !precedes(k, keys@[#[trigger] order@[q] as int], desc),
            decreases order@.len() - p,
        {
            p = p + 1;
        }
        let ghost before = order@;
        proof {
            assert forall|q: int| p <= q < before.len() implies precedes(k, keys@[#[trigger] before[q] as int], desc) by {
                assert(precedes(k, keys@[before[p as int] as int], desc));
                if q > p {
                    assert(!precedes(keys@[before[q] as int], keys@[before[p as int] as int], desc));
                }
            }
        }
        order.insert(p, i);
        proof {
            assert(order@ == before.insert(p as int, i));
            assert forall|q: int| 0 <= q < order@.len() implies (#[trigger] order@[q]) < i + 1 by {
                if q < p {
                    assert(order@[q] == before[q]);
                } else if q > p {
                    assert(order@[q] == before[q - 1]);
                }
            }
            assert forall|a: int, b: int| 0 <= a < b < order@.len() implies {
                &&& (#[trigger] order@[a]) != (#[trigger] order@[b])
                &&& !precedes(keys@[order@[b] as int], keys@[order@[a] as int], desc)
                &&& (keys@[order@[a] as int] == keys@[order@[b] as int] ==> order@[a] < order@[b])
            } by {
                if a < p {
                    assert(order@[a] == before[a]);
                    if b < p {
                        assert(order@[b] == before[b]);
                    } else if b == p {
                        assert(order@[b] == i);
                    } else {
                        assert(order@[b] == before[b - 1]);
                    }
                } else if a == p {
                    assert(order@[a] == i);
                    assert(order@[b] == before[b - 1]);
                } else {
                    assert(order@[a] == before[a - 1]);
                    assert(order@[b] == before[b - 1]);
                }
            }
        }
        i = i + 1;
    }
    order
}

/// `order` lists each of `0..n` exactly once.
pub open spec fn is_permutation(order: Seq<usize>, n: int) -> bool {
    &&& order.len() == n
    &&& forall|i: int| 0 <= i < order.len() ==> (#[trigger] order[i]) < n
    &&& forall|i: int, j: int| 0 <= i < j < order.len() ==> (#[trigger] order[i]) != (#[trigger] order[j])
}

/// A permutation of `0..n` names every position.
pub proof fn lemma_perm_covers(order: Seq<usize>, n: int, v: int)
    requires
        is_permutation(order, n),
        0 <= v < n,
    ensures
        exists|k: int| 0 <= k < order.len() && order[k] == v,
{
    let oi = order.map_values(|x: usize| x as int);
    assert(oi.no_duplicates()) by {
        assert forall|a: int, b: int| 0 <= a < oi.len() && 0 <= b < oi.len() && a != b implies oi[a] != oi[b] by {
            if a < b {
                assert(order[a] != order[b]);
            } else {
                assert(order[b] != order[a]);
            }
        }
    }
    oi.unique_seq_to_set();
    vstd::set_lib::lemma_int_range(0, n);
    let r = vstd::set_lib::set_int_range(0, n);
    assert(oi.to_set().subset_of(r)) by {
        assert forall|x: int| oi.to_set().contains(x) implies r.contains(x) by {
            let k = choose|k: int| 0 <= k < oi.len() && oi[k] == x;
            assert(order[k] < n);
        }
    }
    vstd::set_lib::lemma_len_subset(oi.to_set(), r);
    vstd::set_lib::lemma_subset_equality(oi.to_set(), r);
    assert(r.contains(v));
    assert(oi.to_set().contains(v));
    let k = choose|k: int| 0 <= k < oi.len() && oi[k] == v;
    assert(order[k] == v);
}

/// A stable order names every position.
pub proof fn lemma_order_covers(order: Seq<usize>, keys: Seq<u64>, desc: bool, v: int)
    requires
        is_stable_order(order, keys, desc),
        0 <= v < keys.len(),
    ensures
        exists|k: int| 0 <= k < order.len() && order[k] == v,
{
    lemma_perm_covers(order, keys.len() as int, v);
}

fn key_of(p: &PanelInstance) -> (k: (u32, u32, bool))
    ensures
        k == panel_key(*p),
{
    let (w, h) = p.effective_dimensions();
    (w, h, p.is_rotated)
}

fn has_key(g: &PanelGroup, k: (u32, u32, bool)) -> (r: bool)
    ensures
        r == (g.key() == k),
{
    g.width == k.0 && g.height == k.1 && g.is_rotated == k.2
}

proof fn lemma_members_step(ps: Seq<PanelInstance>, i: int, k: (u32, u32, bool))
    requires
        0 <= i < ps.len(),
    ensures
        members(ps.take(i + 1), k) == (if panel_key(ps[i]) == k {
            members(ps.take(i), k).push(ps[i])
        } else {
            members(ps.take(i), k)
        }),
{
    assert(ps.take(i + 1).drop_last() =~= ps.take(i));
    assert(ps.take(i + 1).last() == ps[i]);
}

/// One group per distinct key of `panels`, in order of first appearance.
fn collect_groups(panels: &[PanelInstance]) -> (gs: Vec<PanelGroup>)
    ensures
        groups_of(panels@, gs@),
{
    let ghost ps = panels@;
    let mut groups: Vec<PanelGroup> = Vec::new();
    let mut i: usize = 0;
    while i < panels.len()
        invariant
            ps == panels@,
            i <= ps.len(),
            groups_of(ps.take(i as int), groups@),
        decreases ps.len() - i,
    {
        let p = panels[i];
        let k = key_of(&p);
        let mut j: usize = 0;
        let mut found = false;
        while j < groups.len() && !found
            invariant
                j <= groups@.len(),
                found ==> j < groups@.len() && groups@[j as int].key() == k,
                forall|q: int| 0 <= q < j ==> (#[trigger] groups@[q]).key() != k,
            decreases groups@.len() - j + (if found { 0int } else { 1int }),
        {
            if has_key(&groups[j], k) {
                found = true;
            } else {
                j = j + 1;
            }
        }
        let ghost pre = groups@;
        let ghost old_ps = ps.take(i as int);
        let ghost new_ps = ps.take(i + 1);
        proof {
            assert(ps[i as int] == p);
            assert forall|kk: (u32, u32, bool)| kk != k implies members(new_ps, kk) == members(old_ps, kk) by {
                lemma_members_step(ps, i as int, kk);
            }
            lemma_members_step(ps, i as int, k);
        }
        if found {
            proof {
                lemma_members_len(old_ps, k);
            }
            let mut g = groups.remove(j);
            g.add_instance(p);
            groups.insert(j, g);
            proof {
                assert forall|q: int| 0 <= q < groups@.len() implies groups@[q] == (if q == j { g } else { pre[q] }) by {
                    if q < j {
                    } else if q > j {
                    }
                }
                assert forall|q: int| 0 <= q < new_ps.len() implies has_group(groups@, panel_key(#[trigger] new_ps[q])) by {
                    if q < i {
                        assert(new_ps[q] == old_ps[q]);
                        let t = choose|t: int| 0 <= t < pre.len() && (#[trigger] pre[t]).key() == panel_key(old_ps[q]);
                        assert(groups@[t].key() == pre[t].key());
                    } else {
                        assert(groups@[j as int].key() == k);
                    }
                }
            }
        } else {
            proof {
                assert forall|q: int| 0 <= q < old_ps.len() implies panel_key(#[trigger] old_ps[q]) != k by {
                    let t = choose|t: int| 0 <= t < pre.len() && (#[trigger] pre[t]).key() == panel_key(old_ps[q]);
                }
                lemma_members_empty(old_ps, k);
            }
            let mut g = PanelGroup::new(k.0, k.1, k.2);
            g.add_instance(p);
            groups.push(g);
            proof {
                assert(groups@ == pre.push(g));
                assert forall|q: int| 0 <= q < new_ps.len() implies has_group(groups@, panel_key(#[trigger] new_ps[q])) by {
                    if q < i {
                        assert(new_ps[q] == old_ps[q]);
                        let t = choose|t: int| 0 <= t < pre.len() && (#[trigger] pre[t]).key() == panel_key(old_ps[q]);
                        assert(groups@[t] == pre[t]);
                    } else {
                        assert(groups@[pre.len() as int].key() == k);
                    }
                }
            }
        }
        i = i + 1;
    }
    proof {
        assert(ps.take(ps.len() as int) =~= ps);
    }
    groups
}

/// The instances of the groups, one group after the other.
pub open spec fn concat(ss: Seq<Seq<PanelInstance>>) -> Seq<PanelInstance>
    decreases ss.len(),
{
    if ss.len() == 0 {
        Seq::empty()
    } else {
        concat(ss.drop_last()) + ss.last()
    }
}

/// The instances held by each group.
pub open spec fn instances_of(gs: Seq<PanelGroup>) -> Seq<Seq<PanelInstance>> {
    gs.map_values(|g: PanelGroup| g.instances@)
}

/// The areas of the groups.
pub open spec fn areas_of(gs: Seq<PanelGroup>) -> Seq<u64> {
    gs.map_values(|g: PanelGroup| (g.width * g.height) as u64)
}

/// Appends `v[lo..hi]` to `out`.
pub(crate) fn push_range(out: &mut Vec<PanelInstance>, v: &Vec<PanelInstance>, lo: usize, hi: usize)
    requires
        lo <= hi <= v@.len(),
    ensures
        final(out)@ == old(out)@ + v@.subrange(lo as int, hi as int),
{
    let ghost start = out@;
    let mut i: usize = lo;
    while i < hi
        invariant
            lo <= i <= hi,
            hi <= v@.len(),
            out@ == start + v@.subrange(lo as int, i as int),
        decreases hi - i,
    {
        out.push(v[i]);
        proof {
            assert(out@ =~= start + v@.subrange(lo as int, i + 1));
        }
        i = i + 1;
    }
}

/// A copy of a group.
fn copy_group(g: &PanelGroup) -> (r: PanelGroup)
    ensures
        r.key() == g.key(),
        r.count == g.count,
        r.instances@ == g.instances@,
{
    let mut instances: Vec<PanelInstance> = Vec::new();
    push_range(&mut instances, &g.instances, 0, g.instances.len());
    proof {
        assert(g.instances@.subrange(0, g.instances@.len() as int) =~= g.instances@);
    }
    PanelGroup { width: g.width, height: g.height, is_rotated: g.is_rotated, count: g.count, instances }
}

/// The areas of the groups, as computed.
pub(crate) fn group_areas(gs: &[PanelGroup]) -> (a: Vec<u64>)
    ensures
        a@ == areas_of(gs@),
{
    let mut a: Vec<u64> = Vec::new();
    let mut i: usize = 0;
    while i < gs.len()
        invariant
            i <= gs@.len(),
            a@ == areas_of(gs@).take(i as int),
        decreases gs@.len() - i,
    {
        let w = gs[i].width as u64;
        let h = gs[i].height as u64;
        assert(w * h <= u32::MAX * u32::MAX) by (nonlinear_arith)
            requires w <= u32::MAX, h <= u32::MAX;
        a.push(w * h);
        proof {
            assert(a@ =~= areas_of(gs@).take(i + 1));
        }
        i = i + 1;
    }
    a
}

impl PanelGrouper {
    /// Groups the instances by effective size and rotation; each group
    /// holds its instances in input order, and groups come by decreasing
    /// area (groups of equal area in no promised order).
    pub fn group_panels(panels: &[PanelInstance]) -> (r: Vec<PanelGroup>)
        ensures
            groups_of(panels@, r@),
            by_area_desc(r@),
    {
        let gs = collect_groups(panels);
        let areas = group_areas(gs.as_slice());
        let order = stable_order(&areas, true);
        let mut r: Vec<PanelGroup> = Vec::new();
        let mut k: usize = 0;
        while k < order.len()
            invariant
                is_stable_order(order@, areas@, true),
                areas@ == areas_of(gs@),
                k <= order@.len(),
                r@.len() == k,
                forall|t: int|
                    0 <= t < k ==> {
                        &&& (#[trigger] r@[t]).key() == gs@[order@[t] as int].key()
                        &&& r@[t].count == gs@[order@[t] as int].count
                        &&& r@[t].instances@ == gs@[order@[t] as int].instances@
                    },
            decreases order@.len() - k,
        {
            let g = copy_group(&gs[order[k]]);
            r.push(g);
            k = k + 1;
        }
        proof {
            let ps = panels@;
            assert forall|i: int| 0 <= i < r@.len() implies {
                &&& (#[trigger] r@[i]).wf()
                &&& r@[i].instances@ == members(ps, r@[i].key())
                &&& r@[i].instances@.len() > 0
            } by {
                let g = gs@[order@[i] as int];
            }
            assert forall|i: int, j: int| 0 <= i < j < r@.len() implies (#[trigger] r@[i]).key() != (#[trigger] r@[j]).key() by {
                let a = order@[i] as int;
                let b = order@[j] as int;
                assert(a != b);
                if a < b {
                    assert(gs@[a].key() != gs@[b].key());
                } else {
                    assert(gs@[b].key() != gs@[a].key());
                }
            }
            assert forall|q: int| 0 <= q < ps.len() implies has_group(r@, panel_key(#[trigger] ps[q])) by {
                let t = choose|t: int| 0 <= t < gs@.len() && (#[trigger] gs@[t]).key() == panel_key(ps[q]);
                lemma_order_covers(order@, areas@, true, t);
                let k = choose|k: int| 0 <= k < order@.len() && order@[k] == t;
                assert(r@[k].key() == gs@[t].key());
            }
            assert forall|i: int, j: int| 0 <= i < j < r@.len() implies group_area(#[trigger] r@[i]) >= group_area(
                #[trigger] r@[j],
            ) by {
                let a = order@[i] as int;
                let b = order@[j] as int;
                assert(!precedes(areas@[b], areas@[a], true));
                assert(gs@[a].width * gs@[a].height <= u32::MAX * u32::MAX) by (nonlinear_arith)
                    requires gs@[a].width <= u32::MAX, gs@[a].height <= u32::MAX, gs@[a].width >= 0, gs@[a].height >= 0;
                assert(gs@[b].width * gs@[b].height <= u32::MAX * u32::MAX) by (nonlinear_arith)
                    requires gs@[b].width <= u32::MAX, gs@[b].height <= u32::MAX, gs@[b].width >= 0, gs@[b].height >= 0;
                assert(0 <= gs@[a].width * gs@[a].height) by (nonlinear_arith)
                    requires gs@[a].width >= 0, gs@[a].height >= 0;
                assert(0 <= gs@[b].width * gs@[b].height) by (nonlinear_arith)
                    requires gs@[b].width >= 0, gs@[b].height >= 0;
            }
        }
        r
    }

    /// The instances of all groups, group after group.
    pub fn flatten_groups(groups: &[PanelGroup]) -> (r: Vec<PanelInstance>)
        ensures
            r@ == concat(instances_of(groups@)),
    {
        let mut r: Vec<PanelInstance> = Vec::new();
        let mut i: usize = 0;
        while i < groups.len()
            invariant
                i <= groups@.len(),
                r@ == concat(instances_of(groups@).take(i as int)),
            decreases groups@.len() - i,
        {
            let v = groups[i].get_all_instances();
            push_range(&mut r, v, 0, v.len());
            proof {
                assert(v@.subrange(0, v@.len() as int) =~= v@);
                assert(instances_of(groups@).take(i + 1).drop_last() =~= instances_of(groups@).take(i as int));
            }
            i = i + 1;
        }
        proof {
            assert(instances_of(groups@).take(i as int) =~= instances_of(groups@));
        }
        r
    }
}

/// How often `x` occurs in the sequences of `ss`, all together.
pub open spec fn count_in(ss: Seq<Seq<PanelInstance>>, x: PanelInstance) -> nat
    decreases ss.len(),
{
    if ss.len() == 0 {
        0
    } else {
        count_in(ss.drop_last(), x) + ss.last().to_multiset().count(x)
    }
}

pub(crate) proof fn lemma_concat_count(ss: Seq<Seq<PanelInstance>>, x: PanelInstance)
    ensures
        concat(ss).to_multiset().count(x) == count_in(ss, x),
    decreases ss.len(),
{
    broadcast use vstd::seq_lib::group_to_multiset_ensures;
    if ss.len() == 0 {
        assert(!concat(ss).contains(x));
    } else {
        lemma_concat_count(ss.drop_last(), x);
        vstd::seq_lib::lemma_multiset_commutative(concat(ss.drop_last()), ss.last());
    }
}

proof fn lemma_members_count(ps: Seq<PanelInstance>, k: (u32, u32, bool), x: PanelInstance)
    ensures
        members(ps, k).to_multiset().count(x) == (if panel_key(x) == k {
            ps.to_multiset().count(x)
        } else {
            0
        }),
    decreases ps.len(),
{
    broadcast use vstd::seq_lib::group_to_multiset_ensures;
    broadcast use vstd::multiset::group_multiset_axioms;
    if ps.len() == 0 {
        assert(!members(ps, k).contains(x));
        assert(!ps.contains(x));
    } else {
        let init = ps.drop_last();
        lemma_members_count(init, k, x);
        assert(ps =~= init.push(ps.last()));
        if panel_key(ps.last()) == k {
            assert(members(ps, k) == members(init, k).push(ps.last()));
        }
    }
}

proof fn lemma_groups_count(ps: Seq<PanelInstance>, gs: Seq<PanelGroup>, x: PanelInstance)
    requires
        forall|i: int| 0 <= i < gs.len() ==> (#[trigger] gs[i]).instances@ == members(ps, gs[i].key()),
        forall|i: int, j: int| 0 <= i < j < gs.len() ==> (#[trigger] gs[i]).key() != (#[trigger] gs[j]).key(),
    ensures
        count_in(instances_of(gs), x) == (if has_group(gs, panel_key(x)) {
            ps.to_multiset().count(x)
        } else {
            0
        }),
    decreases gs.len(),
{
    if gs.len() > 0 {
        let init = gs.drop_last();
        let last = gs.last();
        assert forall|i: int| 0 <= i < init.len() implies (#[trigger] init[i]).instances@ == members(ps, init[i].key()) by {
            assert(init[i] == gs[i]);
        }
        assert forall|i: int, j: int| 0 <= i < j < init.len() implies (#[trigger] init[i]).key() != (#[trigger] init[j]).key() by {
            assert(init[i] == gs[i] && init[j] == gs[j]);
        }
        lemma_groups_count(ps, init, x);
        assert(instances_of(gs).drop_last() =~= instances_of(init));
        assert(instances_of(gs).last() == last.instances@);
        lemma_members_count(ps, last.key(), x);
        let kx = panel_key(x);
        if has_group(gs, kx) {
            let t = choose|t: int| 0 <= t < gs.len() && (#[trigger] gs[t]).key() == kx;
            if t < gs.len() - 1 {
                assert(init[t] == gs[t]);
                assert(has_group(init, kx));
            }
        }
        if has_group(init, kx) {
            let t = choose|t: int| 0 <= t < init.len() && (#[trigger] init[t]).key() == kx;
            assert(gs[t] == init[t]);
            assert(gs[t].key() != gs[gs.len() - 1].key());
            assert(has_group(gs, kx));
        }
        if last.key() == kx {
            assert(gs[gs.len() - 1].key() == kx);
        }
    }
}

/// Grouping loses no panel instance and adds none: the instances of the
/// groups, taken together, are exactly the input instances (counting
/// repeats).
pub proof fn law_grouping_keeps_every_instance(ps: Seq<PanelInstance>, gs: Seq<PanelGroup>)
    requires
        groups_of(ps, gs),
    ensures
        concat(instances_of(gs)).to_multiset() =~= ps.to_multiset(),
{
    broadcast use vstd::seq_lib::group_to_multiset_ensures;
    assert forall|x: PanelInstance| concat(instances_of(gs)).to_multiset().count(x) == ps.to_multiset().count(x) by {
        lemma_concat_count(instances_of(gs), x);
        lemma_groups_count(ps, gs, x);
        if !has_group(gs, panel_key(x)) && ps.to_multiset().count(x) > 0 {
            assert(ps.contains(x));
            let q = choose|q: int| 0 <= q < ps.len() && ps[q] == x;
            assert(has_group(gs, panel_key(ps[q])));
        }
    }
}

proof fn lemma_stable_orders_agree_at(o1: Seq<usize>, o2: Seq<usize>, keys: Seq<u64>, desc: bool, i: int)
    requires
        is_stable_order(o1, keys, desc),
        is_stable_order(o2, keys, desc),
        0 <= i < keys.len(),
    ensures
        o1[i] == o2[i],
    decreases i,
{
    assert forall|j: int| 0 <= j < i implies o1[j] == o2[j] by {
        lemma_stable_orders_agree_at(o1, o2, keys, desc, j);
    }
    let a = o1[i] as int;
    let b = o2[i] as int;
    if a != b {
        // Where does each order hold the element the other has at `i`?
        lemma_perm_covers(o2, keys.len() as int, a);
        let ja = choose|k: int| 0 <= k < o2.len() && o2[k] == a;
        lemma_perm_covers(o1, keys.len() as int, b);
        let jb = choose|k: int| 0 <= k < o1.len() && o1[k] == b;
        if ja < i {
            assert(o1[ja] == o2[ja]);
            assert(o1[ja] != o1[i]);
        }
        if jb < i {
            assert(o1[jb] == o2[jb]);
            assert(o2[jb] != o2[i]);
        }
        assert(ja > i && jb > i);
        assert(!precedes(keys[o2[ja] as int], keys[o2[i] as int], desc));
        assert(!precedes(keys[o1[jb] as int], keys[o1[i] as int], desc));
        if keys[a] == keys[b] {
            assert(keys[o2[i] as int] == keys[o2[ja] as int]);
            assert(o2[i] < o2[ja]);
            assert(keys[o1[i] as int] == keys[o1[jb] as int]);
            assert(o1[i] < o1[jb]);
        }
    }
}

/// A stable order of given keys is unique: sorting stably leaves no choice.
pub proof fn law_stable_order_is_unique(o1: Seq<usize>, o2: Seq<usize>, keys: Seq<u64>, desc: bool)
    requires
        is_stable_order(o1, keys, desc),
        is_stable_order(o2, keys, desc),
    ensures
        o1 == o2,
{
    assert forall|i: int| 0 <= i < o1.len() implies o1[i] == o2[i] by {
        lemma_stable_orders_agree_at(o1, o2, keys, desc, i);
    }
    assert(o1 =~= o2);
}

/// Distinct positions below `m` number at most `m`.
proof fn lemma_distinct_bound(s: Seq<int>, m: int)
    requires
        0 <= m,
        forall|i: int| 0 <= i < s.len() ==> 0 <= #[trigger] s[i] < m,
        forall|i: int, j: int| 0 <= i < j < s.len() ==> (#[trigger] s[i]) != (#[trigger] s[j]),
    ensures
        s.len() <= m,
{
    assert(s.no_duplicates()) by {
        assert forall|a: int, b: int| 0 <= a < s.len() && 0 <= b < s.len() && a != b implies s[a] != s[b] by {
            if a < b {
                assert(s[a] != s[b]);
            } else {
                assert(s[b] != s[a]);
            }
        }
    }
    s.unique_seq_to_set();
    vstd::set_lib::lemma_int_range(0, m);
    let r = vstd::set_lib::set_int_range(0, m);
    assert(s.to_set().subset_of(r)) by {
        assert forall|x: int| s.to_set().contains(x) implies r.contains(x) by {
            let k = choose|k: int| 0 <= k < s.len() && s[k] == x;
        }
    }
    vstd::set_lib::lemma_len_subset(s.to_set(), r);
}

proof fn lemma_members_keys(ps: Seq<PanelInstance>, k: (u32, u32, bool), i: int)
    requires
        0 <= i < members(ps, k).len(),
    ensures
        panel_key(members(ps, k)[i]) == k,
        ps.contains(members(ps, k)[i]),
    decreases ps.len(),
{
    let init = ps.drop_last();
    if panel_key(ps.last()) == k && i == members(init, k).len() {
        assert(members(ps, k)[i] == ps.last());
        assert(ps[ps.len() - 1] == ps.last());
    } else {
        assert(members(ps, k)[i] == members(init, k)[i]);
        lemma_members_keys(init, k, i);
        let q = choose|q: int| 0 <= q < init.len() && init[q] == members(init, k)[i];
        assert(ps[q] == init[q]);
    }
}

/// The index of a group of `gs` with key `k`, when there is one.
pub open spec fn index_of_key(gs: Seq<PanelGroup>, k: (u32, u32, bool)) -> int {
    choose|j: int| 0 <= j < gs.len() && gs[j].key() == k
}

/// Both lists hold the same groups: same key, same instances, same count.
pub open spec fn same_group(a: PanelGroup, b: PanelGroup) -> bool {
    &&& a.key() == b.key()
    &&& a.instances@ == b.instances@
    &&& a.count == b.count
}

proof fn lemma_group_found(ps: Seq<PanelInstance>, g1: Seq<PanelGroup>, g2: Seq<PanelGroup>, i: int)
    requires
        groups_of(ps, g1),
        groups_of(ps, g2),
        0 <= i < g1.len(),
    ensures
        0 <= index_of_key(g2, g1[i].key()) < g2.len(),
        same_group(g1[i], g2[index_of_key(g2, g1[i].key())]),
{
    let k = g1[i].key();
    assert(g1[i].instances@.len() > 0);
    lemma_members_keys(ps, k, 0);
    let x = members(ps, k)[0];
    let q = choose|q: int| 0 <= q < ps.len() && ps[q] == x;
    assert(has_group(g2, panel_key(ps[q])));
    let j = index_of_key(g2, k);
    assert(g2[j].key() == k);
}

/// Some group of `gs` is the same as `g`.
pub open spec fn has_same_group(gs: Seq<PanelGroup>, g: PanelGroup) -> bool {
    exists|j: int| 0 <= j < gs.len() && same_group(g, #[trigger] gs[j])
}

/// The index map from `g1` to `g2` by key.
pub open spec fn key_map(g1: Seq<PanelGroup>, g2: Seq<PanelGroup>) -> Seq<int> {
    Seq::new(g1.len(), |i: int| index_of_key(g2, g1[i].key()))
}

proof fn lemma_key_map(ps: Seq<PanelInstance>, g1: Seq<PanelGroup>, g2: Seq<PanelGroup>)
    requires
        groups_of(ps, g1),
        groups_of(ps, g2),
    ensures
        forall|i: int| 0 <= i < g1.len() ==> 0 <= #[trigger] key_map(g1, g2)[i] < g2.len(),
        forall|i: int| 0 <= i < g1.len() ==> same_group(g1[i], g2[#[trigger] key_map(g1, g2)[i]]),
        forall|i: int, j: int| 0 <= i < j < g1.len() ==> (#[trigger] key_map(g1, g2)[i]) != (#[trigger] key_map(g1, g2)[j]),
        g1.len() <= g2.len(),
{
    let f = key_map(g1, g2);
    assert forall|i: int| 0 <= i < g1.len() implies 0 <= #[trigger] f[i] < g2.len() && same_group(g1[i], g2[f[i]]) by {
        lemma_group_found(ps, g1, g2, i);
    }
    assert forall|i: int, j: int| 0 <= i < j < g1.len() implies (#[trigger] f[i]) != (#[trigger] f[j]) by {
        lemma_group_found(ps, g1, g2, i);
        lemma_group_found(ps, g1, g2, j);
        assert(g1[i].key() != g1[j].key());
    }
    lemma_distinct_bound(f, g2.len() as int);
}

proof fn lemma_area_not_greater(ps: Seq<PanelInstance>, g1: Seq<PanelGroup>, g2: Seq<PanelGroup>, i: int)
    requires
        groups_of(ps, g1),
        groups_of(ps, g2),
        by_area_desc(g1),
        by_area_desc(g2),
        g1.len() == g2.len(),
        0 <= i < g1.len(),
    ensures
        group_area(g1[i]) <= group_area(g2[i]),
{
    if group_area(g1[i]) > group_area(g2[i]) {
        lemma_key_map(ps, g1, g2);
        let f = key_map(g1, g2);
        let pre = f.take(i + 1);
        assert forall|t: int| 0 <= t < pre.len() implies 0 <= #[trigger] pre[t] < i by {
            assert(pre[t] == f[t]);
            assert(same_group(g1[t], g2[f[t]]));
            if t < i {
                assert(group_area(g1[t]) >= group_area(g1[i]));
            }
            assert(group_area(g2[f[t]]) == group_area(g1[t]));
            if f[t] >= i {
                if f[t] > i {
                    assert(group_area(g2[i]) >= group_area(g2[f[t]]));
                }
            }
        }
        assert forall|a: int, b: int| 0 <= a < b < pre.len() implies (#[trigger] pre[a]) != (#[trigger] pre[b]) by {
            assert(pre[a] == f[a] && pre[b] == f[b]);
        }
        lemma_distinct_bound(pre, i);
    }
}

/// Two results of grouping the same panels (such as those of
/// `PanelGrouper::group_panels` and `PermutationGenerator::group_panels`)
/// hold the same groups, each with the same instances, and have the same
/// area at every position: they can differ only in the order of groups of
/// equal area.
pub proof fn law_groupings_agree(ps: Seq<PanelInstance>, g1: Seq<PanelGroup>, g2: Seq<PanelGroup>)
    requires
        groups_of(ps, g1),
        by_area_desc(g1),
        groups_of(ps, g2),
        by_area_desc(g2),
    ensures
        g1.len() == g2.len(),
        forall|i: int| 0 <= i < g1.len() ==> has_same_group(g2, #[trigger] g1[i]),
        forall|i: int| 0 <= i < g1.len() ==> group_area(#[trigger] g1[i]) == group_area(g2[i]),
{
    lemma_key_map(ps, g1, g2);
    lemma_key_map(ps, g2, g1);
    assert forall|i: int| 0 <= i < g1.len() implies has_same_group(g2, #[trigger] g1[i]) by {
        let j = key_map(g1, g2)[i];
        assert(same_group(g1[i], g2[j]));
    }
    assert forall|i: int| 0 <= i < g1.len() implies group_area(#[trigger] g1[i]) == group_area(g2[i]) by {
        lemma_area_not_greater(ps, g1, g2, i);
        lemma_area_not_greater(ps, g2, g1, i);
    }
}

} // verus!
