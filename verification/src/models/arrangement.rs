//! Generation of all orderings of a collection.
use vstd::prelude::*;
use vstd::multiset::Multiset;
use std::fmt::Debug;
use crate::text::{int_decimal, push_u64};

verus! {

/// `n!`
pub open spec fn factorial(n: nat) -> nat
    decreases n,
{
    if n == 0 {
        1
    } else {
        n * factorial((n - 1) as nat)
    }
}

/// `p` with `x` inserted at each position `0..=p.len()`, in that order.
pub open spec fn insertions<A>(p: Seq<A>, x: A) -> Seq<Seq<A>> {
    Seq::new((p.len() + 1) as nat, |i: int| p.insert(i, x))
}

/// The insertions of `x` into each of `ps`, concatenated in order.
pub open spec fn insert_into_each<A>(ps: Seq<Seq<A>>, x: A) -> Seq<Seq<A>>
    decreases ps.len(),
{
    if ps.len() == 0 {
        Seq::empty()
    } else {
        insert_into_each(ps.drop_last(), x) + insertions(ps.last(), x)
    }
}

/// All orderings of `s`, in generation order: the orderings of all but the
/// first element, each with the first element inserted at every position.
pub open spec fn arrangements<A>(s: Seq<A>) -> Seq<Seq<A>>
    decreases s.len(),
{
    if s.len() == 0 {
        seq![Seq::empty()]
    } else {
        insert_into_each(arrangements(s.drop_first()), s[0])
    }
}

/// The indices `lo, lo + 1, ..., n - 1`.
pub open spec fn index_range(lo: int, n: int) -> Seq<usize> {
    Seq::new((n - lo) as nat, |i: int| (lo + i) as usize)
}

/// The contents of a vector of vectors.
pub open spec fn nested_view<A>(v: Seq<Vec<A>>) -> Seq<Seq<A>> {
    v.map_values(|x: Vec<A>| x@)
}

/// Generator of all orderings of a collection.
pub struct Arrangement;

/// A copy of `p` with `x` inserted at position `at`.
fn insert_copy(p: &Vec<usize>, at: usize, x: usize) -> (r: Vec<usize>)
    requires
        at <= p.len(),
    ensures
        r@ == p@.insert(at as int, x),
{
    let mut r: Vec<usize> = Vec::new();
    let mut j: usize = 0;
    while j < p.len()
        invariant
            j <= p.len(),
            at <= p.len(),
            r@ == (if j <= at { p@.take(j as int) } else { p@.take(j as int).insert(at as int, x) }),
        decreases p.len() - j,
    {
        if j == at {
            r.push(x);
        }
        r.push(p[j]);
        j = j + 1;
        proof {
            if j <= at {
                assert(r@ =~= p@.take(j as int));
            } else {
                assert(r@ =~= p@.take(j as int).insert(at as int, x));
            }
        }
    }
    if at == p.len() {
        r.push(x);
    }
    proof {
        assert(p@.take(p.len() as int) =~= p@);
        assert(r@ =~= p@.insert(at as int, x));
    }
    r
}

proof fn lemma_insert_into_each_step<A>(ps: Seq<Seq<A>>, k: int, x: A)
    requires
        0 <= k < ps.len(),
    ensures
        insert_into_each(ps.take(k + 1), x) == insert_into_each(ps.take(k), x) + insertions(ps[k], x),
{
    assert(ps.take(k + 1).drop_last() =~= ps.take(k));
}

/// Every ordering of `s` has the length of `s`.
pub proof fn lemma_arrangement_lengths<A>(s: Seq<A>)
    ensures
        forall|k: int| 0 <= k < arrangements(s).len() ==> #[trigger] arrangements(s)[k].len() == s.len(),
    decreases s.len(),
{
    if s.len() > 0 {
        lemma_arrangement_lengths(s.drop_first());
        lemma_insert_into_each_lengths(arrangements(s.drop_first()), s[0], (s.len() - 1) as nat);
    }
}

proof fn lemma_insert_into_each_lengths<A>(ps: Seq<Seq<A>>, x: A, m: nat)
    requires
        forall|k: int| 0 <= k < ps.len() ==> #[trigger] ps[k].len() == m,
    ensures
        insert_into_each(ps, x).len() == ps.len() * (m + 1),
        forall|k: int| 0 <= k < insert_into_each(ps, x).len() ==> #[trigger] insert_into_each(ps, x)[k].len() == m + 1,
    decreases ps.len(),
{
    if ps.len() > 0 {
        let init = ps.drop_last();
        assert forall|k: int| 0 <= k < init.len() implies #[trigger] init[k].len() == m by {
            assert(init[k] == ps[k]);
        }
        lemma_insert_into_each_lengths(init, x, m);
        let a = insert_into_each(init, x);
        let b = insertions(ps.last(), x);
        assert(ps.last().len() == m);
        assert(a.len() + b.len() == ps.len() * (m + 1)) by (nonlinear_arith)
            requires a.len() == (ps.len() - 1) * (m + 1), b.len() == m + 1;
        assert forall|k: int| 0 <= k < (a + b).len() implies #[trigger] (a + b)[k].len() == m + 1 by {
            if k >= a.len() {
                assert((a + b)[k] == b[k - a.len()]);
            }
        }
    }
}

/// All orderings of the indices `lo..n`.
pub(crate) fn index_arrangements(lo: usize, n: usize) -> (r: Vec<Vec<usize>>)
    requires
        lo <= n,
    ensures
        nested_view(r@) == arrangements(index_range(lo as int, n as int)),
    decreases n - lo,
{
    if lo == n {
        let mut r: Vec<Vec<usize>> = Vec::new();
        r.push(Vec::new());
        proof {
            assert(index_range(lo as int, n as int) =~= Seq::<usize>::empty());
            assert(nested_view(r@) =~= seq![Seq::<usize>::empty()]);
        }
        return r;
    }
    let sub = index_arrangements(lo + 1, n);
    let ghost subv = nested_view(sub@);
    proof {
        assert(index_range(lo as int, n as int).drop_first() =~= index_range(lo + 1, n as int));
        lemma_arrangement_lengths(index_range(lo + 1, n as int));
    }
    let mut result: Vec<Vec<usize>> = Vec::new();
    let mut k: usize = 0;
    while k < sub.len()
        invariant
            k <= sub.len(),
            subv == nested_view(sub@),
            subv == arrangements(index_range(lo as int + 1, n as int)),
            forall|q: int| 0 <= q < subv.len() ==> #[trigger] subv[q].len() == n - lo - 1,
            nested_view(result@) == insert_into_each(subv.take(k as int), lo),
        decreases sub.len() - k,
    {
        let p = &sub[k];
        assert(p@ == subv[k as int]);
        let mut i: usize = 0;
        while i <= p.len()
            invariant
                k < sub.len(),
                p@ == subv[k as int],
                p.len() < n,
                i <= p.len() + 1,
                nested_view(result@) == insert_into_each(subv.take(k as int), lo) + insertions(p@, lo).take(i as int),
            decreases p.len() + 1 - i,
        {
            let np = insert_copy(p, i, lo);
            let ghost before = result@;
            result.push(np);
            proof {
                assert(nested_view(result@) =~= nested_view(before).push(p@.insert(i as int, lo)));
                assert(insertions(p@, lo).take(i as int + 1) =~= insertions(p@, lo).take(i as int).push(p@.insert(i as int, lo)));
                assert(nested_view(result@) =~= insert_into_each(subv.take(k as int), lo) + insertions(p@, lo).take(i as int + 1));
            }
            i = i + 1;
        }
        proof {
            assert(insertions(p@, lo).take(i as int) =~= insertions(p@, lo));
            lemma_insert_into_each_step(subv, k as int, lo);
        }
        k = k + 1;
    }
    proof {
        assert(subv.take(sub.len() as int) =~= subv);
    }
    result
}


proof fn lemma_insert_into_each_map<A, B>(ps: Seq<Seq<A>>, x: A, f: spec_fn(A) -> B)
    ensures
        insert_into_each(ps.map_values(|p: Seq<A>| p.map_values(f)), f(x))
            == insert_into_each(ps, x).map_values(|p: Seq<A>| p.map_values(f)),
    decreases ps.len(),
{
    let g = |p: Seq<A>| p.map_values(f);
    if ps.len() > 0 {
        lemma_insert_into_each_map(ps.drop_last(), x, f);
        assert(ps.map_values(g).drop_last() =~= ps.drop_last().map_values(g));
        let last = ps.last();
        assert forall|i: int| 0 <= i <= last.len() implies #[trigger] last.map_values(f).insert(i, f(x))
            == last.insert(i, x).map_values(f) by {
            assert(last.map_values(f).insert(i, f(x)) =~= last.insert(i, x).map_values(f));
        }
        assert(insertions(last.map_values(f), f(x)) =~= insertions(last, x).map_values(g));
        assert(insert_into_each(ps, x).map_values(g) =~= insert_into_each(ps.drop_last(), x).map_values(g)
            + insertions(last, x).map_values(g));
    } else {
        assert(insert_into_each(ps, x).map_values(g) =~= Seq::<Seq<B>>::empty());
    }
}

/// Ordering commutes with renaming the elements: the orderings of
/// `s` mapped through `f` are the orderings of `s`, each mapped through `f`.
pub proof fn lemma_arrangements_map<A, B>(s: Seq<A>, f: spec_fn(A) -> B)
    ensures
        arrangements(s.map_values(f)) == arrangements(s).map_values(|p: Seq<A>| p.map_values(f)),
    decreases s.len(),
{
    let g = |p: Seq<A>| p.map_values(f);
    if s.len() == 0 {
        assert(Seq::<A>::empty().map_values(f) =~= Seq::<B>::empty());
        assert(arrangements(s).map_values(g) =~= seq![Seq::<B>::empty()]);
        assert(s.map_values(f) =~= Seq::<B>::empty());
    } else {
        assert(s.map_values(f).drop_first() =~= s.drop_first().map_values(f));
        lemma_arrangements_map(s.drop_first(), f);
        lemma_insert_into_each_map(arrangements(s.drop_first()), s[0], f);
    }
}

proof fn lemma_insert_into_each_perm<A>(ps: Seq<Seq<A>>, x: A, m: Multiset<A>)
    requires
        forall|k: int| 0 <= k < ps.len() ==> #[trigger] ps[k].to_multiset() == m,
    ensures
        forall|k: int| 0 <= k < insert_into_each(ps, x).len() ==> #[trigger] insert_into_each(ps, x)[k].to_multiset()
            == m.insert(x),
    decreases ps.len(),
{
    broadcast use vstd::seq_lib::to_multiset_insert;
    if ps.len() > 0 {
        let init = ps.drop_last();
        assert forall|k: int| 0 <= k < init.len() implies #[trigger] init[k].to_multiset() == m by {
            assert(init[k] == ps[k]);
        }
        lemma_insert_into_each_perm(init, x, m);
        let a = insert_into_each(init, x);
        let b = insertions(ps.last(), x);
        assert(ps.last().to_multiset() == m);
        assert forall|k: int| 0 <= k < (a + b).len() implies #[trigger] (a + b)[k].to_multiset() == m.insert(x) by {
            if k >= a.len() {
                assert((a + b)[k] == b[k - a.len()]);
                assert(b[k - a.len()] == ps.last().insert(k - a.len(), x));
            } else {
                assert((a + b)[k] == a[k]);
            }
        }
    }
}

/// Every ordering of `s` holds the same elements as `s`, with the same
/// multiplicities.
pub proof fn lemma_arrangements_are_permutations<A>(s: Seq<A>)
    ensures
        forall|k: int| 0 <= k < arrangements(s).len() ==> #[trigger] arrangements(s)[k].to_multiset()
            == s.to_multiset(),
    decreases s.len(),
{
    broadcast use vstd::seq_lib::group_to_multiset_ensures;
    if s.len() == 0 {
        assert(arrangements(s)[0] =~= s);
    } else {
        lemma_arrangements_are_permutations(s.drop_first());
        lemma_insert_into_each_perm(arrangements(s.drop_first()), s[0], s.drop_first().to_multiset());
        vstd::seq_lib::to_multiset_remove(s, 0);
        assert(s.remove(0) =~= s.drop_first());
        vstd::seq_lib::to_multiset_contains(s, s[0]);
        assert(s.to_multiset().remove(s[0]).insert(s[0]) =~= s.to_multiset());
    }
}

/// A collection of `n` elements has `n!` orderings.
pub proof fn lemma_arrangements_count<A>(s: Seq<A>)
    ensures
        arrangements(s).len() == factorial(s.len()),
    decreases s.len(),
{
    if s.len() > 0 {
        let m = (s.len() - 1) as nat;
        lemma_arrangements_count(s.drop_first());
        lemma_arrangement_lengths(s.drop_first());
        lemma_insert_into_each_lengths(arrangements(s.drop_first()), s[0], m);
        assert(factorial(m) * (m + 1) == factorial(s.len())) by (nonlinear_arith)
            requires m + 1 == s.len(), factorial(s.len()) == s.len() * factorial(m);
    }
}

proof fn lemma_insert_into_each_contains<A>(ps: Seq<Seq<A>>, x: A, k: int, i: int)
    requires
        0 <= k < ps.len(),
        0 <= i <= ps[k].len(),
    ensures
        insert_into_each(ps, x).contains(ps[k].insert(i, x)),
    decreases ps.len(),
{
    let a = insert_into_each(ps.drop_last(), x);
    let b = insertions(ps.last(), x);
    if k == ps.len() - 1 {
        assert((a + b)[a.len() + i] == b[i]);
    } else {
        assert(ps.drop_last()[k] == ps[k]);
        lemma_insert_into_each_contains(ps.drop_last(), x, k, i);
        let j = choose|j: int| 0 <= j < a.len() && a[j] == ps[k].insert(i, x);
        assert((a + b)[j] == a[j]);
    }
}

/// Every rearrangement of `s` (same elements, same multiplicities) is
/// among the generated orderings.
pub proof fn lemma_arrangements_complete<A>(s: Seq<A>, p: Seq<A>)
    requires
        p.to_multiset() == s.to_multiset(),
    ensures
        arrangements(s).contains(p),
    decreases s.len(),
{
    broadcast use vstd::seq_lib::group_to_multiset_ensures;
    vstd::seq_lib::to_multiset_len(s);
    vstd::seq_lib::to_multiset_len(p);
    if s.len() == 0 {
        assert(p =~= Seq::<A>::empty());
        assert(arrangements(s)[0] == p);
    } else {
        let x = s[0];
        vstd::seq_lib::to_multiset_contains(s, x);
        vstd::seq_lib::to_multiset_contains(p, x);
        let i = choose|i: int| 0 <= i < p.len() && p[i] == x;
        let q = p.remove(i);
        vstd::seq_lib::to_multiset_remove(p, i);
        vstd::seq_lib::to_multiset_remove(s, 0);
        assert(s.remove(0) =~= s.drop_first());
        lemma_arrangements_complete(s.drop_first(), q);
        let ps = arrangements(s.drop_first());
        let k = choose|k: int| 0 <= k < ps.len() && ps[k] == q;
        assert(q.insert(i, x) =~= p);
        lemma_insert_into_each_contains(ps, x, k, i);
    }
}

/// `perms` holds the orderings of `list` in generation order, each element
/// a clone of the corresponding element of `list`.
pub open spec fn clones_of_arrangements<T: Clone>(list: Seq<T>, perms: Seq<Vec<T>>) -> bool {
    &&& perms.len() == arrangements(list).len()
    &&& forall|k: int|
        0 <= k < perms.len() ==> {
            &&& #[trigger] perms[k].len() == list.len()
            &&& forall|j: int| 0 <= j < list.len() ==> cloned(arrangements(list)[k][j], #[trigger] perms[k]@[j])
        }
}

fn materialize<T: Clone>(list: &[T], idx: &Vec<Vec<usize>>) -> (r: Vec<Vec<T>>)
    requires
        forall|k: int, j: int| 0 <= k < idx.len() && 0 <= j < idx@[k].len() ==> #[trigger] idx@[k]@[j] < list@.len(),
    ensures
        r.len() == idx.len(),
        forall|k: int|
            0 <= k < r.len() ==> {
                &&& #[trigger] r@[k].len() == idx@[k].len()
                &&& forall|j: int| 0 <= j < idx@[k].len() ==> cloned(list@[idx@[k]@[j] as int], #[trigger] r@[k]@[j])
            },
{
    let mut r: Vec<Vec<T>> = Vec::new();
    let mut k: usize = 0;
    while k < idx.len()
        invariant
            k <= idx.len(),
            r.len() == k,
            forall|k: int, j: int| 0 <= k < idx.len() && 0 <= j < idx@[k].len() ==> #[trigger] idx@[k]@[j] < list@.len(),
            forall|q: int|
                0 <= q < k ==> {
                    &&& #[trigger] r@[q].len() == idx@[q].len()
                    &&& forall|j: int| 0 <= j < idx@[q].len() ==> cloned(list@[idx@[q]@[j] as int], #[trigger] r@[q]@[j])
                },
        decreases idx.len() - k,
    {
        let p = &idx[k];
        let mut row: Vec<T> = Vec::new();
        let mut j: usize = 0;
        while j < p.len()
            invariant
                k < idx.len(),
                p@ == idx@[k as int]@,
                j <= p.len(),
                row.len() == j,
                forall|k: int, j: int| 0 <= k < idx.len() && 0 <= j < idx@[k].len() ==> #[trigger] idx@[k]@[j] < list@.len(),
                forall|q: int| 0 <= q < j ==> cloned(list@[p@[q] as int], #[trigger] row@[q]),
            decreases p.len() - j,
        {
            assert(idx@[k as int]@[j as int] < list@.len());
            let e = list[p[j]].clone();
            row.push(e);
            j = j + 1;
        }
        let ghost prev = r@;
        r.push(row);
        proof {
            assert(r@[k as int] == row);
            assert forall|q: int| 0 <= q < k implies r@[q] == prev[q] by {}
        }
        k = k + 1;
    }
    assert forall|q: int| 0 <= q < r.len() implies {
        &&& #[trigger] r@[q].len() == idx@[q].len()
        &&& forall|j: int| 0 <= j < idx@[q].len() ==> cloned(list@[idx@[q]@[j] as int], #[trigger] r@[q]@[j])
    } by {
        assert(q < k);
        assert(r@[q].len() == idx@[q].len());
    }
    r
}

impl Arrangement {
    /// All orderings of `list`: the first element is inserted at every
    /// position of every ordering of the remaining elements. Never fails.
    pub fn generate_permutations<T>(list: Vec<T>) -> (r: Result<Vec<Vec<T>>, String>)
        where
            T: Clone + Debug,
        ensures
            r matches Ok(perms) && clones_of_arrangements(list@, perms@),
    {
        Self::generate_permutations_from_slice(list.as_slice())
    }

    /// All orderings of the elements of `slice`, which is left untouched.
    pub fn generate_permutations_from_slice<T>(slice: &[T]) -> (r: Result<Vec<Vec<T>>, String>)
        where
            T: Clone + Debug,
        ensures
            r matches Ok(perms) && clones_of_arrangements(slice@, perms@),
    {
        let n = slice.len();
        let idx = index_arrangements(0, n);
        let ghost range = index_range(0, n as int);
        let ghost f = |i: usize| slice@[i as int];
        proof {
            lemma_arrangements_are_permutations(range);
            lemma_arrangement_lengths(range);
            lemma_arrangements_map(range, f);
            assert(range.map_values(f) =~= slice@);
            assert forall|k: int, j: int| 0 <= k < idx.len() && 0 <= j < idx@[k].len() implies #[trigger] idx@[k]@[j]
                < slice@.len() by {
                let p = idx@[k]@;
                assert(p == arrangements(range)[k]);
                vstd::seq_lib::to_multiset_contains(p, p[j]);
                vstd::seq_lib::to_multiset_contains(range, p[j]);
                let i = choose|i: int| 0 <= i < range.len() && range[i] == p[j];
            }
        }
        let perms = materialize(slice, &idx);
        proof {
            let a = arrangements(slice@);
            assert(perms@.len() == idx@.len());
            assert(nested_view(idx@).len() == idx@.len());
            assert(a.len() == arrangements(range).len());
            assert(perms@.len() == a.len());
            assert forall|k: int| 0 <= k < perms@.len() implies {
                &&& #[trigger] perms@[k].len() == slice@.len()
                &&& forall|j: int| 0 <= j < slice@.len() ==> cloned(a[k][j], #[trigger] perms@[k]@[j])
            } by {
                assert(idx@[k]@ == arrangements(range)[k]);
                assert(a[k] == arrangements(range)[k].map_values(f));
                assert(arrangements(range)[k].len() == range.len());
                assert(perms@[k].len() == idx@[k].len());
                assert forall|j: int| 0 <= j < slice@.len() implies cloned(a[k][j], #[trigger] perms@[k]@[j]) by {
                    assert(a[k][j] == f(idx@[k]@[j]));
                    assert(cloned(slice@[idx@[k]@[j] as int], perms@[k]@[j]));
                }
            }
            assert(clones_of_arrangements(slice@, perms@));
        }
        Ok(perms)
    }
}

impl Arrangement {
    /// `n!`, the number of orderings of `n` elements. Inputs above 20 are
    /// refused outright; otherwise an overflow of `usize` is reported at the
    /// first factor whose product no longer fits.
    pub fn count_permutations(n: usize) -> (r: Result<usize, String>)
        ensures
            n > 20 ==> (r matches Err(e) && e@ == "Input too large ("@ + int_decimal(n as int)
                + "), would cause overflow"@),
            n <= 20 && factorial(n as nat) <= usize::MAX ==> r == Ok::<usize, String>(
                factorial(n as nat) as usize,
            ),
            n <= 20 && factorial(n as nat) > usize::MAX ==> (r matches Err(e) && exists|i: int|
                2 <= i <= n && factorial(i as nat) > usize::MAX && factorial((i - 1) as nat) <= usize::MAX
                    && e@ == "Factorial overflow at "@ + int_decimal(i)),
    {
        if n > 20 {
            let mut e = String::from_str("Input too large (");
            push_u64(&mut e, n as u64);
            e.append("), would cause overflow");
            return Err(e);
        }
        let mut result: usize = 1;
        let mut i: usize = 2;
        proof {
            reveal_with_fuel(factorial, 2);
        }
        while i <= n
            invariant
                2 <= i,
                i <= n + 1 || n < 2,
                n < 2 ==> i == 2,
                n <= 20,
                result == factorial((i - 1) as nat),
            decreases n + 1 - i,
        {
            match result.checked_mul(i) {
                Some(v) => {
                    proof {
                        assert(result * i == i * result) by (nonlinear_arith);
                    }
                    result = v;
                },
                None => {
                    let mut e = String::from_str("Factorial overflow at ");
                    push_u64(&mut e, i as u64);
                    proof {
                        lemma_factorial_monotone(i as nat, n as nat);
                        assert(factorial(i as nat) == i * factorial((i - 1) as nat));
                        assert(result * i == i * result) by (nonlinear_arith);
                        assert(e@ == "Factorial overflow at "@ + int_decimal(i as int));
                        assert(2 <= i <= n && factorial(i as nat) > usize::MAX && factorial((i - 1) as nat)
                            <= usize::MAX && e@ == "Factorial overflow at "@ + int_decimal(i as int));
                    }
                    return Err(e);
                },
            }
            i = i + 1;
        }
        proof {
            reveal_with_fuel(factorial, 2);
        }
        Ok(result)
    }
}

/// `n!` never decreases as `n` grows.
pub proof fn lemma_factorial_monotone(a: nat, b: nat)
    requires
        a <= b,
    ensures
        1 <= factorial(a) <= factorial(b),
    decreases b,
{
    if b > 0 {
        if a < b {
            lemma_factorial_monotone(a, (b - 1) as nat);
        } else {
            lemma_factorial_monotone((a - 1) as nat, (b - 1) as nat);
        }
        assert(factorial((b - 1) as nat) <= b * factorial((b - 1) as nat)) by (nonlinear_arith)
            requires b >= 1, factorial((b - 1) as nat) >= 1;
    }
}

/// The orderings of the first `m` elements of `s` are the orderings of the
/// indices `0..m` read through `s`; every index is below `m`.
pub(crate) proof fn lemma_index_arrangements_select<A>(s: Seq<A>, m: int)
    requires
        0 <= m <= s.len(),
        m <= usize::MAX,
    ensures
        arrangements(index_range(0, m)).len() == arrangements(s.take(m)).len(),
        forall|k: int|
            0 <= k < arrangements(index_range(0, m)).len() ==> {
                &&& (#[trigger] arrangements(index_range(0, m))[k]).len() == m
                &&& arrangements(s.take(m))[k] == arrangements(index_range(0, m))[k].map_values(
                    |i: usize| s[i as int],
                )
                &&& forall|j: int| 0 <= j < m ==> arrangements(index_range(0, m))[k][j] < m
            },
{
    let range = index_range(0, m);
    let f = |i: usize| s[i as int];
    lemma_arrangements_are_permutations(range);
    lemma_arrangement_lengths(range);
    lemma_arrangements_map(range, f);
    assert forall|i: int| 0 <= i < m implies #[trigger] range.map_values(f)[i] == s.take(m)[i] by {
        assert(range[i] == i as usize);
    }
    assert(range.map_values(f) =~= s.take(m));
    assert forall|k: int| 0 <= k < arrangements(range).len() implies {
        &&& (#[trigger] arrangements(range)[k]).len() == m
        &&& arrangements(s.take(m))[k] == arrangements(range)[k].map_values(f)
        &&& forall|j: int| 0 <= j < m ==> arrangements(range)[k][j] < m
    } by {
        let p = arrangements(range)[k];
        assert forall|j: int| 0 <= j < m implies p[j] < m by {
            vstd::seq_lib::to_multiset_contains(p, p[j]);
            vstd::seq_lib::to_multiset_contains(range, p[j]);
            let i = choose|i: int| 0 <= i < range.len() && range[i] == p[j];
        }
    }
}

/// `n!` for `n <= 7` is at most 5040.
pub(crate) proof fn lemma_factorial_small(n: nat)
    requires
        n <= 7,
    ensures
        factorial(n) <= 5040,
{
    assert(factorial(0) == 1);
    assert(factorial(1) == 1);
    assert(factorial(2) == 2);
    assert(factorial(3) == 6);
    assert(factorial(4) == 24);
    assert(factorial(5) == 120);
    assert(factorial(6) == 720);
    assert(factorial(7) == 5040);
    lemma_factorial_monotone(n, 7);
}
} // verus!
