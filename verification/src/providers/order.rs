//! Positions of a list in the order of their timestamps.
use vstd::prelude::*;
use vstd::relations::{
    antisymmetric, reflexive, sorted_by, strongly_connected, total_ordering, transitive,
};

use crate::trace::{no_later, Timestamp};

verus! {

/// Position `a` comes no later than position `b`: it has an earlier time, or the same time and
/// comes first in the list.
pub open spec fn comes_first(times: Seq<Timestamp>, a: int, b: int) -> bool {
    if times[a] == times[b] {
        a <= b
    } else {
        no_later(times[a], times[b])
    }
}

/// [`comes_first`] as a relation.
pub open spec fn time_order(times: Seq<Timestamp>) -> spec_fn(int, int) -> bool {
    |a: int, b: int| comes_first(times, a, b)
}

/// The positions from `from` up to `to`.
pub open spec fn positions(from: int, to: int) -> Seq<int> {
    Seq::new((to - from) as nat, |i: int| from + i)
}

/// The positions of a list in the order of their times, positions with one time in the order of
/// the list.
pub open spec fn chronological(times: Seq<Timestamp>) -> Seq<int> {
    positions(0, times.len() as int).sort_by(time_order(times))
}

/// Positions as integers.
pub open spec fn as_ints(v: Seq<usize>) -> Seq<int> {
    Seq::new(v.len(), |i: int| v[i] as int)
}

/// Positions are totally ordered.
pub proof fn lemma_time_order_total(times: Seq<Timestamp>)
    ensures
        total_ordering(time_order(times)),
{
    let r = time_order(times);
    assert(reflexive(r));
    assert(antisymmetric(r));
    assert(transitive(r));
    assert(strongly_connected(r));
}

fn is_first(times: &Vec<Timestamp>, a: usize, b: usize) -> (r: bool)
    requires
        a < times@.len(),
        b < times@.len(),
    ensures
        r == comes_first(times@, a as int, b as int),
{
    if times[a] == times[b] {
        a <= b
    } else {
        times[a].is_no_later(times[b])
    }
}

/// Merges two ordered lists of positions.
fn merge(times: &Vec<Timestamp>, left: &Vec<usize>, right: &Vec<usize>) -> (r: Vec<usize>)
    requires
        forall|i: int| 0 <= i < left@.len() ==> #[trigger] left@[i] < times@.len(),
        forall|i: int| 0 <= i < right@.len() ==> #[trigger] right@[i] < times@.len(),
        sorted_by(as_ints(left@), time_order(times@)),
        sorted_by(as_ints(right@), time_order(times@)),
    ensures
        forall|i: int| 0 <= i < r@.len() ==> #[trigger] r@[i] < times@.len(),
        sorted_by(as_ints(r@), time_order(times@)),
        as_ints(r@).to_multiset() == as_ints(left@).to_multiset().add(
            as_ints(right@).to_multiset(),
        ),
{
    broadcast use vstd::seq_lib::group_to_multiset_ensures;
    broadcast use vstd::multiset::group_multiset_axioms;

    let ghost leq = time_order(times@);
    let ghost ls = as_ints(left@);
    let ghost rs = as_ints(right@);
    let mut out: Vec<usize> = Vec::new();
    let mut i: usize = 0;
    let mut j: usize = 0;
    proof {
        lemma_time_order_total(times@);
        assert(as_ints(out@) =~= Seq::<int>::empty());
        assert(ls.take(0) =~= Seq::<int>::empty());
        assert(rs.take(0) =~= Seq::<int>::empty());
        assert(Seq::<int>::empty().to_multiset().add(Seq::<int>::empty().to_multiset())
            =~= Seq::<int>::empty().to_multiset());
    }
    while i < left.len() || j < right.len()
        invariant
            leq == time_order(times@),
            total_ordering(leq),
            ls == as_ints(left@),
            rs == as_ints(right@),
            sorted_by(ls, leq),
            sorted_by(rs, leq),
            forall|k: int| 0 <= k < left@.len() ==> #[trigger] left@[k] < times@.len(),
            forall|k: int| 0 <= k < right@.len() ==> #[trigger] right@[k] < times@.len(),
            forall|k: int| 0 <= k < out@.len() ==> #[trigger] out@[k] < times@.len(),
            i <= left@.len(),
            j <= right@.len(),
            sorted_by(as_ints(out@), leq),
            forall|k: int, m: int|
                0 <= k < out@.len() && i <= m < ls.len() ==> #[trigger] leq(
                    as_ints(out@)[k],
                    ls[m],
                ),
            forall|k: int, m: int|
                0 <= k < out@.len() && j <= m < rs.len() ==> #[trigger] leq(
                    as_ints(out@)[k],
                    rs[m],
                ),
            as_ints(out@).to_multiset() == ls.take(i as int).to_multiset().add(
                rs.take(j as int).to_multiset(),
            ),
        decreases (left@.len() - i) + (right@.len() - j),
    {
        let from_left = if i == left.len() {
            false
        } else if j == right.len() {
            true
        } else {
            is_first(times, left[i], right[j])
        };
        let next: usize = if from_left {
            left[i]
        } else {
            right[j]
        };
        let ghost before = as_ints(out@);
        out.push(next);
        proof {
            broadcast use vstd::seq_lib::group_to_multiset_ensures;
            broadcast use vstd::multiset::group_multiset_axioms;

            let after = as_ints(out@);
            assert(after =~= before.push(next as int));
            if from_left {
                assert(ls[i as int] == next as int);
                assert(ls.take(i + 1) =~= ls.take(i as int).push(ls[i as int]));
                assert(after.to_multiset() =~= ls.take(i + 1).to_multiset().add(
                    rs.take(j as int).to_multiset(),
                ));
                assert forall|m: int| j <= m < rs.len() implies #[trigger] leq(
                    next as int,
                    rs[m],
                ) by {
                    assert(leq(next as int, rs[j as int]));
                    if m > j {
                        assert(leq(rs[j as int], rs[m]));
                    }
                }
                assert forall|m: int| i < m < ls.len() implies #[trigger] leq(
                    next as int,
                    ls[m],
                ) by {
                    assert(leq(ls[i as int], ls[m]));
                }
            } else {
                assert(rs[j as int] == next as int);
                assert(rs.take(j + 1) =~= rs.take(j as int).push(rs[j as int]));
                assert(after.to_multiset() =~= ls.take(i as int).to_multiset().add(
                    rs.take(j + 1).to_multiset(),
                ));
                assert forall|m: int| i <= m < ls.len() implies #[trigger] leq(
                    next as int,
                    ls[m],
                ) by {
                    assert(leq(next as int, ls[i as int]));
                    if m > i {
                        assert(leq(ls[i as int], ls[m]));
                    }
                }
                assert forall|m: int| j < m < rs.len() implies #[trigger] leq(
                    next as int,
                    rs[m],
                ) by {
                    assert(leq(rs[j as int], rs[m]));
                }
            }
        }
        if from_left {
            i = i + 1;
        } else {
            j = j + 1;
        }
    }
    proof {
        assert(ls.take(ls.len() as int) =~= ls);
        assert(rs.take(rs.len() as int) =~= rs);
    }
    out
}

/// Orders the positions from `from` up to `to`.
fn sort_range(times: &Vec<Timestamp>, from: usize, to: usize) -> (r: Vec<usize>)
    requires
        from <= to <= times@.len(),
    ensures
        forall|i: int| 0 <= i < r@.len() ==> #[trigger] r@[i] < times@.len(),
        sorted_by(as_ints(r@), time_order(times@)),
        as_ints(r@).to_multiset() == positions(from as int, to as int).to_multiset(),
    decreases to - from,
{
    if to - from <= 1 {
        let mut out: Vec<usize> = Vec::new();
        if to > from {
            out.push(from);
        }
        assert(as_ints(out@) =~= positions(from as int, to as int));
        return out;
    }
    let middle: usize = from + (to - from) / 2;
    let left = sort_range(times, from, middle);
    let right = sort_range(times, middle, to);
    proof {
        let a = positions(from as int, middle as int);
        let b = positions(middle as int, to as int);
        assert(positions(from as int, to as int) =~= a + b);
        vstd::seq_lib::lemma_multiset_commutative(a, b);
    }
    merge(times, &left, &right)
}

/// The positions of a list in the order of their times.
pub fn order_by_time(times: &Vec<Timestamp>) -> (r: Vec<usize>)
    ensures
        as_ints(r@) == chronological(times@),
        forall|i: int| 0 <= i < r@.len() ==> #[trigger] r@[i] < times@.len(),
{
    let r = sort_range(times, 0, times.len());
    proof {
        let all = positions(0, times@.len() as int);
        let leq = time_order(times@);
        lemma_time_order_total(times@);
        all.lemma_sort_by_ensures(leq);
        vstd::seq_lib::lemma_sorted_unique(as_ints(r@), all.sort_by(leq), leq);
    }
    r
}

/// Every position of a list comes up once, no time comes before an earlier one, and positions with
/// one time keep their order.
pub proof fn chronological_is_a_stable_sort(times: Seq<Timestamp>)
    ensures
        chronological(times).to_multiset() == positions(0, times.len() as int).to_multiset(),
        forall|i: int, j: int|
            0 <= i < j < chronological(times).len() ==> comes_first(
                times,
                #[trigger] chronological(times)[i],
                #[trigger] chronological(times)[j],
            ),
{
    lemma_time_order_total(times);
    let leq = time_order(times);
    let all = positions(0, times.len() as int);
    all.lemma_sort_by_ensures(leq);
    assert forall|i: int, j: int| 0 <= i < j < chronological(times).len() implies comes_first(
        times,
        #[trigger] chronological(times)[i],
        #[trigger] chronological(times)[j],
    ) by {
        assert(leq(chronological(times)[i], chronological(times)[j]));
    }
}

/// What happened at the same time stays in the order of the log, and what happened earlier comes
/// first.
pub proof fn equal_times_keep_their_order(times: Seq<Timestamp>, i: int, j: int)
    requires
        0 <= i < j < chronological(times).len(),
    ensures
        times[chronological(times)[i]] == times[chronological(times)[j]] ==> chronological(times)[i]
            <= chronological(times)[j],
        times[chronological(times)[i]] != times[chronological(times)[j]] ==> no_later(
            times[chronological(times)[i]],
            times[chronological(times)[j]],
        ),
{
    chronological_is_a_stable_sort(times);
    assert(comes_first(times, chronological(times)[i], chronological(times)[j]));
}

} // verus!
