//! Population ordering shared by the population-based and simplex
//! solvers: reorder candidates jointly with their costs so the best
//! (lowest-cost) comes first.
//!
//! Costs are ranked by the IEEE-754 order with every NaN ranked last, so
//! one bad evaluation can never drag itself to the front; ties keep their
//! relative order from the input.

use vstd::prelude::*;

use crate::framework::float::{FloatBits, SIGN_BIT};

verus! {

/// `idx` is a permutation of `0..n`: `n` distinct indices below `n`.
pub open spec fn is_permutation(idx: Seq<usize>, n: nat) -> bool {
    &&& idx.len() == n
    &&& forall|i: int| 0 <= i < n ==> #[trigger] idx[i] < n
    &&& forall|i: int, j: int| 0 <= i < j < n ==> idx[i] != idx[j]
}

/// The sequence whose `i`-th entry is `s[idx[i]]`.
pub open spec fn gather<T>(s: Seq<T>, idx: Seq<usize>) -> Seq<T> {
    Seq::new(idx.len(), |i: int| s[idx[i] as int])
}

/// Entry `a` comes strictly before entry `b` when its cost ranks lower,
/// or ranks the same and it came first.
pub open spec fn ranks_before(costs: Seq<FloatBits>, a: usize, b: usize) -> bool {
    costs[a as int].rank_spec() < costs[b as int].rank_spec() || (costs[a as int].rank_spec()
        == costs[b as int].rank_spec() && a < b)
}

/// `order` lists the entries of `costs` ascending by rank, ties in their
/// input order. (For every cost sequence exactly one permutation does.)
pub open spec fn ascending_stably(costs: Seq<FloatBits>, order: Seq<usize>) -> bool {
    forall|i: int, j: int|
        0 <= i < j < order.len() ==> ranks_before(costs, #[trigger] order[i], #[trigger] order[j])
}

/// Number of `false` entries.
pub open spec fn count_false(s: Seq<bool>) -> nat
    decreases s.len(),
{
    if s.len() == 0 {
        0
    } else {
        count_false(s.drop_last()) + if s.last() {
            0nat
        } else {
            1nat
        }
    }
}

proof fn lemma_count_false_mark(s: Seq<bool>, i: int)
    requires
        0 <= i < s.len(),
        !s[i],
    ensures
        count_false(s.update(i, true)) + 1 == count_false(s),
    decreases s.len(),
{
    if i == s.len() - 1 {
        assert(s.update(i, true).drop_last() =~= s.drop_last());
    } else {
        assert(s.update(i, true).drop_last() =~= s.drop_last().update(i, true));
        lemma_count_false_mark(s.drop_last(), i);
    }
}

/// `<[T]>::swap`: exchanges the entries at `a` and `b`; panics when either
/// index is out of bounds, which `requires` rules out.
pub assume_specification<Item>[ <[Item]>::swap ](slice: &mut [Item], a: usize, b: usize)
    requires
        a < old(slice)@.len(),
        b < old(slice)@.len(),
    ensures
        final(slice)@ == old(slice)@.update(a as int, old(slice)@[b as int]).update(
            b as int,
            old(slice)@[a as int],
        ),
;

/// Reorder `slice` in place so that position `i` holds what position
/// `idx[i]` held, following each cycle of the permutation once.
#[verifier::spinoff_prover]
pub fn apply_permutation<T>(slice: &mut [T], idx: &[usize])
    requires
        is_permutation(idx@, old(slice)@.len()),
    ensures
        final(slice)@ == gather(old(slice)@, idx@),
{
    let ghost orig = slice@;
    let n = slice.len();
    let mut visited: Vec<bool> = vec![false; n];
    let mut start: usize = 0;
    while start < n
        invariant
            n == slice@.len(),
            n == orig.len(),
            n == visited@.len(),
            is_permutation(idx@, n as nat),
            start <= n,
            forall|p: int| 0 <= p < start ==> #[trigger] visited@[p],
            forall|p: int| 0 <= p < n && visited@[p] ==> #[trigger] slice@[p] == orig[idx@[p] as int],
            forall|p: int| 0 <= p < n && !visited@[p] ==> #[trigger] slice@[p] == orig[p],
            forall|p: int| 0 <= p < n ==> (visited@[p] <==> visited@[#[trigger] idx@[p] as int]),
        decreases n - start,
    {
        if visited[start] || idx[start] == start {
            proof {
                assert forall|p: int| 0 <= p < n implies (visited@.update(start as int, true)[p]
                    <==> visited@.update(start as int, true)[idx@[p] as int]) by {
                    if idx@[p] as int == start as int && p != start as int {
                        assert(visited@[p] <==> visited@[idx@[p] as int]);
                        if !visited@[start as int] {
                            assert(idx@[start as int] == start);
                            assert(idx@[p] != idx@[start as int]);
                        }
                    }
                    if p == start as int && !visited@[start as int] {
                        assert(idx@[start as int] == start);
                    }
                }
            }
            visited.set(start, true);
            start = start + 1;
            continue;
        }
        let ghost closed = visited@;
        let ghost mut cycle: Seq<usize> = seq![start];
        let mut current = start;
        loop
            invariant_except_break
                !visited@[current as int],
                slice@[current as int] == orig[start as int],
                cycle.last() == current,
                forall|p: int| 0 <= p < n && !visited@[p] && p != current ==> #[trigger] slice@[p] == orig[p],
                forall|p: int|
                    0 <= p < n && #[trigger] visited@[p] && !closed[p] ==> exists|j: int|
                        0 <= j < cycle.len() - 1 && #[trigger] cycle[j] == p,
                forall|j: int| 0 <= j < cycle.len() - 1 ==> visited@[#[trigger] cycle[j] as int],
            invariant
                n == slice@.len(),
                n == orig.len(),
                n == visited@.len(),
                is_permutation(idx@, n as nat),
                start < n,
                current < n,
                closed.len() == n,
                !closed[start as int],
                forall|p: int| 0 <= p < start ==> #[trigger] closed[p],
                forall|p: int| 0 <= p < n && #[trigger] closed[p] ==> visited@[p],
                forall|p: int| 0 <= p < n ==> (closed[p] <==> closed[#[trigger] idx@[p] as int]),
                forall|p: int| 0 <= p < n && visited@[p] ==> #[trigger] slice@[p] == orig[idx@[p] as int],
                cycle.len() >= 1,
                cycle[0] == start,
                forall|j: int| 0 <= j < cycle.len() ==> #[trigger] cycle[j] < n,
                forall|j: int| 0 <= j < cycle.len() ==> !closed[#[trigger] cycle[j] as int],
                forall|j: int|
                    0 <= j < cycle.len() - 1 ==> idx@[#[trigger] cycle[j] as int] == cycle[j + 1],
            ensures
                visited@[start as int],
                forall|p: int| 0 <= p < n && !visited@[p] ==> #[trigger] slice@[p] == orig[p],
                forall|p: int|
                    0 <= p < n && #[trigger] visited@[p] && !closed[p] ==> exists|j: int|
                        0 <= j < cycle.len() && #[trigger] cycle[j] == p,
                forall|j: int| 0 <= j < cycle.len() ==> visited@[#[trigger] cycle[j] as int],
                idx@[cycle.last() as int] == start,
            decreases count_false(visited@),
        {
            let next = idx[current];
            proof {
                lemma_count_false_mark(visited@, current as int);
            }
            visited.set(current, true);
            if next == start {
                break;
            }
            proof {
                // `next` has not been visited: it is not in an earlier
                // cycle (those are closed under the permutation and
                // `current` is not in one), and not earlier in this cycle
                // (its predecessor there would be `current`).
                if visited@[next as int] && next != current {
                    if closed[next as int] {
                        assert(closed[current as int]);
                    } else {
                        let j = choose|j: int| 0 <= j < cycle.len() - 1 && #[trigger] cycle[j] == next;
                        assert(j != 0);
                        assert(idx@[cycle[j - 1] as int] == next);
                        assert(cycle[j - 1] == current);
                    }
                }
                if next == current {
                    assert(cycle.len() >= 2);
                    assert(idx@[cycle[cycle.len() - 2] as int] == current);
                    assert(cycle[cycle.len() - 2] == current);
                }
            }
            slice.swap(current, next);
            let ghost old_cycle = cycle;
            proof {
                cycle = cycle.push(next);
                assert forall|p: int|
                    0 <= p < n && #[trigger] visited@[p] && !closed[p] implies exists|j: int|
                        0 <= j < cycle.len() - 1 && #[trigger] cycle[j] == p by {
                    if p == current as int {
                        assert(cycle[old_cycle.len() - 1] == current);
                    } else {
                        let j = choose|j: int| 0 <= j < old_cycle.len() - 1 && #[trigger] old_cycle[j] == p;
                        assert(cycle[j] == p);
                    }
                }
            }
            current = next;
        }
        proof {
            assert forall|p: int| 0 <= p < start + 1 implies #[trigger] visited@[p] by {
                if p < start {
                    assert(closed[p]);
                }
            }
            assert forall|p: int| 0 <= p < n implies (visited@[p] <==> visited@[#[trigger] idx@[p] as int]) by {
                if visited@[p] && !closed[p] {
                    let j = choose|j: int| 0 <= j < cycle.len() && #[trigger] cycle[j] == p;
                    if j < cycle.len() - 1 {
                        assert(idx@[cycle[j] as int] == cycle[j + 1]);
                    }
                }
                if visited@[idx@[p] as int] && !closed[idx@[p] as int] && !closed[p] {
                    let q = idx@[p];
                    let j = choose|j: int| 0 <= j < cycle.len() && #[trigger] cycle[j] == q;
                    if j == 0 {
                        assert(idx@[cycle.last() as int] == q);
                        assert(p == cycle.last());
                    } else {
                        assert(idx@[cycle[j - 1] as int] == q);
                        assert(p == cycle[j - 1]);
                    }
                }
                if closed[idx@[p] as int] {
                    assert(closed[p]);
                }
            }
        }
        start = start + 1;
    }
    assert(slice@ =~= gather(orig, idx@));
}

/// The order that lists `costs` ascending by rank, ties in their input
/// order.
fn sorted_order(costs: &[FloatBits]) -> (order: Vec<usize>)
    ensures
        is_permutation(order@, costs@.len()),
        ascending_stably(costs@, order@),
{
    let n = costs.len();
    let mut order: Vec<usize> = Vec::new();
    let mut i: usize = 0;
    while i < n
        invariant
            n == costs@.len(),
            i <= n,
            order@.len() == i,
            forall|a: int| 0 <= a < i ==> #[trigger] order@[a] < i,
            forall|a: int, b: int| 0 <= a < b < i ==> order@[a] != order@[b],
            ascending_stably(costs@, order@),
        decreases n - i,
    {
        let r = costs[i].rank();
        let mut p: usize = 0;
        while p < order.len() && costs[order[p]].rank() <= r
            invariant
                n == costs@.len(),
                i < n,
                order@.len() == i,
                p <= i,
                forall|a: int| 0 <= a < i ==> #[trigger] order@[a] < i,
                forall|q: int| 0 <= q < p ==> costs@[#[trigger] order@[q] as int].rank_spec() <= r,
            decreases i - p,
        {
            p = p + 1;
        }
        proof {
            assert forall|q: int| p <= q < i implies costs@[#[trigger] order@[q] as int].rank_spec()
                > r by {
                if q > p {
                    assert(ranks_before(costs@, order@[p as int], order@[q]));
                }
            }
        }
        let ghost prev = order@;
        order.insert(p, i);
        proof {
            assert(order@ =~= prev.insert(p as int, i));
            assert forall|a: int, b: int| 0 <= a < b < order@.len() implies ranks_before(
                costs@,
                #[trigger] order@[a],
                #[trigger] order@[b],
            ) by {
                if b < p {
                } else if b == p {
                    assert(order@[a] == prev[a]);
                } else if a < p {
                    assert(order@[b] == prev[b - 1]);
                } else if a == p {
                    assert(order@[b] == prev[b - 1]);
                } else {
                    assert(order@[a] == prev[a - 1]);
                    assert(order@[b] == prev[b - 1]);
                }
            }
        }
        i = i + 1;
    }
    order
}

/// Sort `candidates` and `costs` jointly, ascending by cost rank (NaN
/// costs last), ties kept in their input order.
///
/// Afterwards both have been rearranged by the one permutation that lists
/// the costs that way, so each candidate stays paired with its cost and
/// the best candidate is first.
pub fn sort_population_ascending<V>(candidates: &mut [V], costs: &mut [FloatBits])
    requires
        old(candidates)@.len() == old(costs)@.len(),
    ensures
        exists|order: Seq<usize>|
            {
                &&& is_permutation(order, old(costs)@.len())
                &&& ascending_stably(old(costs)@, order)
                &&& final(candidates)@ == gather(old(candidates)@, order)
                &&& final(costs)@ == gather(old(costs)@, order)
            },
{
    let order = sorted_order(costs);
    apply_permutation(candidates, order.as_slice());
    apply_permutation(costs, order.as_slice());
}

/// The best-first law: after the sort, no cost ranks below the first one.
pub proof fn lemma_sorted_best_first(costs: Seq<FloatBits>, order: Seq<usize>)
    requires
        is_permutation(order, costs.len()),
        ascending_stably(costs, order),
        costs.len() > 0,
    ensures
        forall|k: int|
            0 <= k < costs.len() ==> gather(costs, order)[0].rank_spec() <= #[trigger] gather(
                costs,
                order,
            )[k].rank_spec(),
{
    assert forall|k: int| 0 <= k < costs.len() implies gather(costs, order)[0].rank_spec()
        <= #[trigger] gather(costs, order)[k].rank_spec() by {
        if k > 0 {
            assert(ranks_before(costs, order[0], order[k]));
        }
    }
}

/// NaN costs sort last: after the sort, every cost that follows a NaN is a
/// NaN too.
pub proof fn lemma_sorted_nan_last(costs: Seq<FloatBits>, order: Seq<usize>)
    requires
        is_permutation(order, costs.len()),
        ascending_stably(costs, order),
    ensures
        forall|i: int, j: int|
            0 <= i < j < costs.len() && (#[trigger] gather(costs, order)[i]).is_nan_spec()
                ==> (#[trigger] gather(costs, order)[j]).is_nan_spec(),
{
    assert forall|i: int, j: int|
        0 <= i < j < costs.len() && (#[trigger] gather(costs, order)[i]).is_nan_spec() implies (
    #[trigger] gather(costs, order)[j]).is_nan_spec() by {
        assert(ranks_before(costs, order[i], order[j]));
        let b = gather(costs, order)[j];
        assert(b.magnitude() < SIGN_BIT as int);
    }
}


/// How many entries a generation of `n` candidates keeps when truncated to
/// `lambda`.
pub open spec fn survivors(lambda: usize, n: nat) -> nat {
    if lambda as nat <= n {
        lambda as nat
    } else {
        n
    }
}

/// One generation of elitist `(1 + λ)` selection.
///
/// The carried-over `elite` (with its cost) is put in front of the fresh
/// `samples`, the lot is sorted ascending by cost rank as
/// [`sort_population_ascending`] does, and only the best `lambda` entries
/// survive. Because the elite takes part in the sort, the best surviving
/// cost never ranks above the elite's: the best cost of a run never gets
/// worse from one generation to the next.
pub fn elitist_selection<V>(
    elite: V,
    elite_cost: FloatBits,
    samples: Vec<V>,
    sample_costs: Vec<FloatBits>,
    lambda: usize,
) -> (r: (Vec<V>, Vec<FloatBits>))
    requires
        samples@.len() == sample_costs@.len(),
        samples@.len() < usize::MAX,
    ensures
        exists|order: Seq<usize>|
            {
                &&& is_permutation(order, sample_costs@.len() + 1)
                &&& #[trigger] ascending_stably(sample_costs@.insert(0, elite_cost), order)
                &&& r.0@ == gather(samples@.insert(0, elite), order).subrange(
                    0,
                    survivors(lambda, sample_costs@.len() + 1) as int,
                )
                &&& r.1@ == gather(sample_costs@.insert(0, elite_cost), order).subrange(
                    0,
                    survivors(lambda, sample_costs@.len() + 1) as int,
                )
            },
        r.0@.len() == r.1@.len(),
        r.1@.len() == survivors(lambda, samples@.len() + 1),
        lambda >= 1 ==> r.1@[0].rank_spec() <= elite_cost.rank_spec(),
        lambda >= 1 ==> forall|k: int|
            0 <= k < sample_costs@.len() ==> r.1@[0].rank_spec() <= (
            #[trigger] sample_costs@[k]).rank_spec(),
{
    let mut candidates = samples;
    let mut costs = sample_costs;
    candidates.insert(0, elite);
    costs.insert(0, elite_cost);
    let ghost all_candidates = candidates@;
    let ghost all_costs = costs@;
    sort_population_ascending(candidates.as_mut_slice(), costs.as_mut_slice());
    let ghost order = choose|order: Seq<usize>|
        {
            &&& is_permutation(order, all_costs.len())
            &&& ascending_stably(all_costs, order)
            &&& candidates@ == gather(all_candidates, order)
            &&& costs@ == gather(all_costs, order)
        };
    proof {
        lemma_sorted_best_first(all_costs, order);
        if lambda >= 1 {
            lemma_permutation_reaches(order, all_costs.len(), 0);
            let j0 = choose|j: int| 0 <= j < all_costs.len() && order[j] == 0;
            assert(gather(all_costs, order)[j0] == elite_cost);
            assert forall|k: int| 0 <= k < sample_costs@.len() implies costs@[0].rank_spec() <= (
            #[trigger] sample_costs@[k]).rank_spec() by {
                lemma_permutation_reaches(order, all_costs.len(), k + 1);
                let jk = choose|j: int| 0 <= j < all_costs.len() && order[j] == k + 1;
                assert(gather(all_costs, order)[jk] == all_costs[k + 1]);
                assert(all_costs[k + 1] == sample_costs@[k]);
            }
        }
    }
    candidates.truncate(lambda);
    costs.truncate(lambda);
    (candidates, costs)
}

/// Every index below `n` occurs in a permutation of `0..n`.
proof fn lemma_permutation_reaches(order: Seq<usize>, n: nat, t: int)
    requires
        is_permutation(order, n),
        0 <= t < n,
    ensures
        exists|j: int| 0 <= j < n && order[j] == t,
{
    let m = Seq::new(n, |j: int| order[j] as int);
    assert(m.no_duplicates()) by {
        assert forall|i: int, j: int| 0 <= i < m.len() && 0 <= j < m.len() && i != j implies m[i]
            != m[j] by {
            if i < j {
                assert(order[i] != order[j]);
            } else {
                assert(order[j] != order[i]);
            }
        }
    }
    m.unique_seq_to_set();
    vstd::seq_lib::seq_to_set_is_finite(m);
    vstd::set_lib::lemma_int_range(0, n as int);
    let range = vstd::set_lib::set_int_range(0, n as int);
    assert(m.to_set().subset_of(range)) by {
        assert forall|t: int| m.to_set().contains(t) implies range.contains(t) by {
            let j = choose|j: int| 0 <= j < m.len() && m[j] == t;
            assert(order[j] < n);
        }
    }
    vstd::set_lib::lemma_subset_equality(m.to_set(), range);
    assert(range.contains(t));
    assert(m.to_set().contains(t));
    let j = choose|j: int| 0 <= j < m.len() && m[j] == t;
    assert(order[j] == t);
}

} // verus!
