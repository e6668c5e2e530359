//! Order statistics of a window of utilization values: ascending order,
//! median and maximum.

use vstd::prelude::*;
use vstd::relations::{sorted_by, total_ordering};
use vstd::seq_lib::{lemma_multiset_commutative, lemma_sorted_unique, to_multiset_build};

verus! {

/// The order by which utilization values are compared.
pub open spec fn by_value() -> spec_fn(u32, u32) -> bool {
    |x: u32, y: u32| x <= y
}

/// `s` never decreases from one index to the next.
pub open spec fn ascending(s: Seq<u32>) -> bool {
    forall|i: int, j: int| 0 <= i <= j < s.len() ==> s[i] <= s[j]
}

/// The values of `s` in ascending order.
pub open spec fn ascending_order(s: Seq<u32>) -> Seq<u32> {
    s.sort_by(by_value())
}

/// The value halfway between `a` and `b`, rounded down.
pub open spec fn midpoint(a: int, b: int) -> int {
    (a + b) / 2
}

/// The median of a non-empty `s`: the middle value of its ascending order,
/// or the midpoint of the two middle values where the length is even.
pub open spec fn median(s: Seq<u32>) -> int
    recommends
        s.len() > 0,
{
    let t = ascending_order(s);
    midpoint(t[(t.len() - 1) / 2] as int, t[t.len() as int / 2] as int)
}

/// The largest value of a non-empty `s`.
pub open spec fn maximum(s: Seq<u32>) -> int
    recommends
        s.len() > 0,
    decreases s.len(),
{
    if s.len() <= 1 {
        s[0] as int
    } else {
        let rest = maximum(s.drop_last());
        if s.last() > rest {
            s.last() as int
        } else {
            rest
        }
    }
}

/// The smallest value of a non-empty `s`.
pub open spec fn minimum(s: Seq<u32>) -> int
    recommends
        s.len() > 0,
    decreases s.len(),
{
    if s.len() <= 1 {
        s[0] as int
    } else {
        let rest = minimum(s.drop_last());
        if s.last() < rest {
            s.last() as int
        } else {
            rest
        }
    }
}

/// Comparing by value is a total order.
proof fn lemma_by_value_total()
    ensures
        total_ordering(by_value()),
{
    let leq = by_value();
    assert(vstd::relations::reflexive(leq));
    assert(vstd::relations::antisymmetric(leq));
    assert(vstd::relations::transitive(leq));
    assert(vstd::relations::strongly_connected(leq));
}

/// The ascending order of `s` is ascending, holds exactly the values of `s`,
/// each as often as `s` does, and is the only sequence of which both hold.
pub proof fn lemma_ascending_order(s: Seq<u32>)
    ensures
        ascending(ascending_order(s)),
        ascending_order(s).to_multiset() == s.to_multiset(),
        ascending_order(s).len() == s.len(),
        forall|t: Seq<u32>|
            ascending(t) && t.to_multiset() == s.to_multiset() ==> t == #[trigger] ascending_order(
                s,
            ),
{
    broadcast use vstd::seq_lib::group_to_multiset_ensures;

    let leq = by_value();
    lemma_by_value_total();
    s.lemma_sort_by_ensures(leq);
    let o = ascending_order(s);
    assert(ascending(o)) by {
        assert forall|i: int, j: int| 0 <= i <= j < o.len() implies o[i] <= o[j] by {
            if i < j {
                assert(leq(o[i], o[j]));
            }
        }
    }
    assert(o.len() == o.to_multiset().len());
    assert(s.len() == s.to_multiset().len());
    assert forall|t: Seq<u32>|
        ascending(t) && t.to_multiset() == s.to_multiset() implies t == #[trigger] ascending_order(
        s,
    ) by {
        assert(sorted_by(t, leq)) by {
            assert forall|i: int, j: int| 0 <= i < j < t.len() implies #[trigger] leq(
                t[i],
                t[j],
            ) by {}
        }
        lemma_sorted_unique(t, o, leq);
    }
}

/// Every value of the ascending order of `s` is a value of `s`.
pub proof fn lemma_ascending_order_members(s: Seq<u32>, k: int)
    requires
        0 <= k < s.len(),
    ensures
        s.contains(ascending_order(s)[k]),
{
    broadcast use vstd::seq_lib::group_to_multiset_ensures;

    lemma_ascending_order(s);
    let o = ascending_order(s);
    assert(o.contains(o[k]));
    assert(o.to_multiset().count(o[k]) > 0);
    assert(s.to_multiset().count(o[k]) > 0);
}

/// The maximum of a non-empty `s` is one of its values and none is larger.
pub proof fn lemma_maximum(s: Seq<u32>)
    requires
        s.len() > 0,
    ensures
        s.contains(maximum(s) as u32),
        0 <= maximum(s) <= u32::MAX,
        forall|i: int| 0 <= i < s.len() ==> s[i] <= maximum(s),
    decreases s.len(),
{
    if s.len() <= 1 {
        assert(s[0] == maximum(s));
    } else {
        let init = s.drop_last();
        lemma_maximum(init);
        let w = choose|i: int| 0 <= i < init.len() && init[i] == maximum(init) as u32;
        assert(s[w] == init[w]);
        assert(s[s.len() - 1] == s.last());
        assert forall|i: int| 0 <= i < s.len() implies s[i] <= maximum(s) by {
            if i < init.len() {
                assert(s[i] == init[i]);
            }
        }
    }
}

/// The minimum of a non-empty `s` is one of its values and none is smaller.
pub proof fn lemma_minimum(s: Seq<u32>)
    requires
        s.len() > 0,
    ensures
        s.contains(minimum(s) as u32),
        0 <= minimum(s) <= u32::MAX,
        forall|i: int| 0 <= i < s.len() ==> minimum(s) <= s[i],
    decreases s.len(),
{
    if s.len() <= 1 {
        assert(s[0] == minimum(s));
    } else {
        let init = s.drop_last();
        lemma_minimum(init);
        let w = choose|i: int| 0 <= i < init.len() && init[i] == minimum(init) as u32;
        assert(s[w] == init[w]);
        assert(s[s.len() - 1] == s.last());
        assert forall|i: int| 0 <= i < s.len() implies minimum(s) <= s[i] by {
            if i < init.len() {
                assert(s[i] == init[i]);
            }
        }
    }
}

/// The median of a non-empty `s` lies between its minimum and its maximum.
pub proof fn lemma_median_bounds(s: Seq<u32>)
    requires
        s.len() > 0,
    ensures
        minimum(s) <= median(s) <= maximum(s),
{
    let o = ascending_order(s);
    lemma_ascending_order(s);
    let a = (o.len() - 1) / 2;
    let b = o.len() as int / 2;
    lemma_ascending_order_members(s, a);
    lemma_ascending_order_members(s, b);
    lemma_maximum(s);
    lemma_minimum(s);
}

/// Where every value of `s` is at most `bound`, so is its median.
pub proof fn lemma_median_at_most(s: Seq<u32>, bound: int)
    requires
        s.len() > 0,
        forall|i: int| 0 <= i < s.len() ==> s[i] <= bound,
    ensures
        median(s) <= bound,
{
    lemma_median_bounds(s);
    lemma_maximum(s);
}

/// Merges two ascending vectors into one.
fn merge(left: &Vec<u32>, right: &Vec<u32>) -> (merged: Vec<u32>)
    requires
        ascending(left@),
        ascending(right@),
        left@.len() + right@.len() <= usize::MAX,
    ensures
        ascending(merged@),
        merged@.to_multiset() == left@.to_multiset().add(right@.to_multiset()),
        merged@.len() == left@.len() + right@.len(),
{
    broadcast use vstd::seq_lib::group_to_multiset_ensures;
    broadcast use vstd::multiset::group_multiset_axioms;

    let mut merged: Vec<u32> = Vec::new();
    let mut i: usize = 0;
    let mut j: usize = 0;
    assert(left@.subrange(0, 0) =~= Seq::<u32>::empty());
    assert(right@.subrange(0, 0) =~= Seq::<u32>::empty());
    while i < left.len() || j < right.len()
        invariant
            i <= left@.len(),
            j <= right@.len(),
            left@.len() + right@.len() <= usize::MAX,
            ascending(left@),
            ascending(right@),
            ascending(merged@),
            merged@.len() == i + j,
            merged@.to_multiset() == left@.subrange(0, i as int).to_multiset().add(
                right@.subrange(0, j as int).to_multiset(),
            ),
            forall|k: int|
                0 <= k < merged@.len() && i < left@.len() ==> merged@[k] <= left@[i as int],
            forall|k: int|
                0 <= k < merged@.len() && j < right@.len() ==> merged@[k] <= right@[j as int],
        decreases left@.len() + right@.len() - i - j,
    {
        let take_left = if i >= left.len() {
            false
        } else if j >= right.len() {
            true
        } else {
            left[i] <= right[j]
        };
        if take_left {
            proof {
                assert(left@.subrange(0, i + 1) =~= left@.subrange(0, i as int).push(
                    left@[i as int],
                ));
            }
            let ghost before = merged@;
            merged.push(left[i]);
            proof {
                let a = left@.subrange(0, i as int).to_multiset();
                let b = right@.subrange(0, j as int).to_multiset();
                let x = left@[i as int];
                assert(merged@ == before.push(x));
                to_multiset_build(before, x);
                to_multiset_build(left@.subrange(0, i as int), x);
                assert(a.insert(x).add(b) =~= a.add(b).insert(x));
            }
            i = i + 1;
        } else {
            proof {
                assert(right@.subrange(0, j + 1) =~= right@.subrange(0, j as int).push(
                    right@[j as int],
                ));
            }
            let ghost before = merged@;
            merged.push(right[j]);
            proof {
                let a = left@.subrange(0, i as int).to_multiset();
                let b = right@.subrange(0, j as int).to_multiset();
                let x = right@[j as int];
                assert(merged@ == before.push(x));
                to_multiset_build(before, x);
                to_multiset_build(right@.subrange(0, j as int), x);
                assert(a.add(b.insert(x)) =~= a.add(b).insert(x));
            }
            j = j + 1;
        }
    }
    proof {
        assert(left@.subrange(0, i as int) =~= left@);
        assert(right@.subrange(0, j as int) =~= right@);
    }
    merged
}

/// Sorts the values of `values` from index `from` up to, not including, `to`.
fn sorted_range(values: &Vec<u32>, from: usize, to: usize) -> (sorted: Vec<u32>)
    requires
        from <= to <= values@.len(),
    ensures
        ascending(sorted@),
        sorted@.to_multiset() == values@.subrange(from as int, to as int).to_multiset(),
        sorted@.len() == to - from,
    decreases to - from,
{
    if to - from <= 1 {
        let mut sorted: Vec<u32> = Vec::new();
        if to - from == 1 {
            sorted.push(values[from]);
        }
        proof {
            assert(sorted@ =~= values@.subrange(from as int, to as int));
        }
        sorted
    } else {
        let middle: usize = from + (to - from) / 2;
        let left = sorted_range(values, from, middle);
        let right = sorted_range(values, middle, to);
        proof {
            let a = values@.subrange(from as int, middle as int);
            let b = values@.subrange(middle as int, to as int);
            assert(a + b =~= values@.subrange(from as int, to as int));
            lemma_multiset_commutative(a, b);
        }
        merge(&left, &right)
    }
}

/// The values of `values` in ascending order.
pub fn sorted(values: &Vec<u32>) -> (sorted: Vec<u32>)
    ensures
        sorted@ == ascending_order(values@),
{
    let sorted = sorted_range(values, 0, values.len());
    proof {
        assert(values@.subrange(0, values@.len() as int) =~= values@);
        lemma_ascending_order(values@);
    }
    sorted
}

/// The median of `values`, or `None` where there are no values.
pub fn median_of(values: &Vec<u32>) -> (m: Option<u32>)
    ensures
        m is None <==> values@.len() == 0,
        m matches Some(middle) ==> middle == median(values@),
{
    if values.len() == 0 {
        return None;
    }
    let sorted = sorted(values);
    proof {
        lemma_ascending_order(values@);
    }
    let n: usize = sorted.len();
    let low: u32 = sorted[(n - 1) / 2];
    let high: u32 = sorted[n / 2];
    Some(low + (high - low) / 2)
}

/// The largest of `values`, or `None` where there are no values.
pub fn maximum_of(values: &Vec<u32>) -> (m: Option<u32>)
    ensures
        m is None <==> values@.len() == 0,
        m matches Some(largest) ==> largest == maximum(values@),
{
    if values.len() == 0 {
        return None;
    }
    let mut m: u32 = values[0];
    let mut i: usize = 1;
    assert(values@.subrange(0, 1) =~= seq![values@[0]]);
    while i < values.len()
        invariant
            1 <= i <= values@.len(),
            m == maximum(values@.subrange(0, i as int)),
        decreases values@.len() - i,
    {
        proof {
            assert(values@.subrange(0, i + 1).drop_last() =~= values@.subrange(0, i as int));
        }
        if values[i] > m {
            m = values[i];
        }
        i = i + 1;
    }
    proof {
        assert(values@.subrange(0, i as int) =~= values@);
    }
    Some(m)
}

} // verus!
