//! Putting event ids in ascending order.

use vstd::prelude::*;
use vstd::relations::total_ordering;
use vstd::seq_lib::{to_multiset_contains, to_multiset_len};

verus! {

/// Whether each id is smaller than all that follow it.
pub open spec fn ascending(ids: Seq<u32>) -> bool {
    forall|i: int, j: int| 0 <= i < j < ids.len() ==> ids[i] < ids[j]
}

/// Whether two sequences hold the same ids, however often and in whatever
/// order.
pub open spec fn same_ids(a: Seq<u32>, b: Seq<u32>) -> bool {
    forall|x: u32| a.contains(x) <==> b.contains(x)
}

/// The ids read in the order that `order` lists their positions.
pub open spec fn picked(ids: Seq<u32>, order: Seq<usize>) -> Seq<u32> {
    Seq::new(order.len(), |i: int| ids[order[i] as int])
}

/// Whether position `k` stands somewhere in `order`.
pub open spec fn lists(order: Seq<usize>, k: int) -> bool {
    exists|i: int| 0 <= i < order.len() && order[i] as int == k
}

/// Whether `order` lists every position of `ids` once, smallest id first.
pub open spec fn is_ascending_order(order: Seq<usize>, ids: Seq<u32>) -> bool {
    &&& order.len() == ids.len()
    &&& forall|i: int| 0 <= i < order.len() ==> 0 <= #[trigger] order[i] < ids.len()
    &&& ascending(picked(ids, order))
    &&& forall|k: int| 0 <= k < ids.len() ==> #[trigger] lists(order, k)
}

/// Two ascending sequences that hold the same ids are the same sequence.
pub proof fn lemma_ascending_unique(a: Seq<u32>, b: Seq<u32>)
    requires
        ascending(a),
        ascending(b),
        same_ids(a, b),
    ensures
        a == b,
    decreases a.len(),
{
    if a.len() == 0 {
        if b.len() > 0 {
            assert(b.contains(b[0]));
            assert(a.contains(b[0]));
        }
        assert(a =~= b);
    } else {
        let top = a.last();
        assert(a.contains(top));
        assert(b.contains(top));
        assert(b.len() > 0);
        let other = b.last();
        assert(b.contains(other));
        assert(a.contains(other));
        let i = choose|i: int| 0 <= i < a.len() && a[i] == other;
        let j = choose|j: int| 0 <= j < b.len() && b[j] == top;
        assert(other <= top);
        assert(top <= other);
        let a0 = a.drop_last();
        let b0 = b.drop_last();
        assert forall|x: u32| a0.contains(x) <==> b0.contains(x) by {
            if a0.contains(x) {
                let k = choose|k: int| 0 <= k < a0.len() && a0[k] == x;
                assert(a[k] == x);
                assert(a.contains(x));
                assert(x < top);
                let m = choose|m: int| 0 <= m < b.len() && b[m] == x;
                assert(m < b.len() - 1);
                assert(b0[m] == x);
            }
            if b0.contains(x) {
                let k = choose|k: int| 0 <= k < b0.len() && b0[k] == x;
                assert(b[k] == x);
                assert(b.contains(x));
                assert(x < other);
                let m = choose|m: int| 0 <= m < a.len() && a[m] == x;
                assert(m < a.len() - 1);
                assert(a0[m] == x);
            }
        }
        lemma_ascending_unique(a0, b0);
        assert(a =~= a0.push(top));
        assert(b =~= b0.push(other));
    }
}

/// The ids read in an ascending order of their positions are ascending and
/// are the ids that were given.
pub proof fn lemma_picked_same_ids(ids: Seq<u32>, order: Seq<usize>)
    requires
        is_ascending_order(order, ids),
    ensures
        ascending(picked(ids, order)),
        same_ids(picked(ids, order), ids),
        picked(ids, order).len() == ids.len(),
{
    let p = picked(ids, order);
    assert forall|x: u32| p.contains(x) <==> ids.contains(x) by {
        if p.contains(x) {
            let i = choose|i: int| 0 <= i < p.len() && p[i] == x;
            assert(ids[order[i] as int] == x);
        }
        if ids.contains(x) {
            let k = choose|k: int| 0 <= k < ids.len() && ids[k] == x;
            assert(lists(order, k));
            let i = choose|i: int| 0 <= i < order.len() && order[i] as int == k;
            assert(p[i] == x);
        }
    }
}

/// The given ids in ascending order.
pub open spec fn in_order(ids: Seq<u32>) -> Seq<u32> {
    ids.sort_by(|a: u32, b: u32| a <= b)
}

/// Ids of which none comes twice can be put in ascending order: none is lost
/// and none is added.
pub proof fn lemma_in_order(ids: Seq<u32>)
    requires
        ids.no_duplicates(),
    ensures
        ascending(in_order(ids)),
        same_ids(in_order(ids), ids),
        in_order(ids).len() == ids.len(),
{
    let leq = |a: u32, b: u32| a <= b;
    let sorted = ids.sort_by(leq);
    assert(total_ordering(leq));
    ids.lemma_sort_by_ensures(leq);
    to_multiset_len(ids);
    to_multiset_len(sorted);
    assert forall|x: u32| sorted.contains(x) <==> ids.contains(x) by {
        to_multiset_contains(sorted, x);
        to_multiset_contains(ids, x);
    }
    ids.lemma_multiset_has_no_duplicates();
    sorted.lemma_multiset_has_no_duplicates_conv();
    assert forall|i: int, j: int| 0 <= i < j < sorted.len() implies sorted[i] < sorted[j] by {
        assert(leq(sorted[i], sorted[j]));
    }
}

/// Ascending ids do not repeat.
pub proof fn lemma_ascending_no_duplicates(ids: Seq<u32>)
    requires
        ascending(ids),
    ensures
        ids.no_duplicates(),
{
    assert forall|i: int, j: int| 0 <= i < ids.len() && 0 <= j < ids.len() && i != j implies ids[i]
        != ids[j] by {
        if i < j {
            assert(ids[i] < ids[j]);
        } else {
            assert(ids[j] < ids[i]);
        }
    }
}

/// Finds the order in which the positions of `ids` must be read for the ids
/// to ascend. There is one exactly when no id comes twice.
pub fn ascending_order(ids: &Vec<u32>) -> (r: Option<Vec<usize>>)
    ensures
        r is Some <==> ids@.no_duplicates(),
        r matches Some(order) ==> is_ascending_order(order@, ids@),
{
    let n: usize = ids.len();
    let mut order: Vec<usize> = Vec::new();
    let mut k: usize = 0;
    while k < n
        invariant
            n == ids@.len(),
            k <= n,
            order@.len() == k,
            forall|i: int| 0 <= i < k ==> 0 <= #[trigger] order@[i] < k,
            forall|i: int, j: int|
                0 <= i < j < k ==> ids@[order@[i] as int] < ids@[order@[j] as int],
            forall|m: int| 0 <= m < k ==> #[trigger] lists(order@, m),
            forall|a: int, b: int| 0 <= a < b < k ==> ids@[a] != ids@[b],
        decreases n - k,
    {
        let id: u32 = ids[k];
        let mut p: usize = 0;
        while p < k && ids[order[p]] < id
            invariant
                n == ids@.len(),
                k < n,
                order@.len() == k,
                p <= k,
                id == ids@[k as int],
                forall|i: int| 0 <= i < k ==> 0 <= #[trigger] order@[i] < k,
                forall|i: int| 0 <= i < p ==> ids@[order@[i] as int] < id,
            decreases k - p,
        {
            p += 1;
        }
        if p < k && ids[order[p]] == id {
            proof {
                let twin = order@[p as int] as int;
                assert(ids@[twin] == ids@[k as int] && twin != k);
            }
            return None;
        }
        let ghost before = order@;
        order.insert(p, k);
        proof {
            let after = order@;
            assert forall|i: int| 0 <= i < k + 1 implies 0 <= #[trigger] after[i] < k + 1 by {
                if i < p {
                    assert(after[i] == before[i]);
                } else if i > p {
                    assert(after[i] == before[i - 1]);
                }
            }
            assert forall|i: int, j: int| 0 <= i < j < k + 1 implies ids@[after[i] as int]
                < ids@[after[j] as int] by {
                let x = if i < p {
                    before[i]
                } else if i == p {
                    k
                } else {
                    before[i - 1]
                };
                let y = if j < p {
                    before[j]
                } else if j == p {
                    k
                } else {
                    before[j - 1]
                };
                assert(after[i] == x);
                assert(after[j] == y);
                if j > p && p < k {
                    assert(ids@[before[p as int] as int] <= ids@[before[j - 1] as int]);
                }
            }
            assert forall|m: int| 0 <= m < k + 1 implies #[trigger] lists(after, m) by {
                if m == k {
                    assert(after[p as int] == m);
                } else {
                    assert(lists(before, m));
                    let i = choose|i: int| 0 <= i < before.len() && before[i] as int == m;
                    if i < p {
                        assert(after[i] == m);
                    } else {
                        assert(after[i + 1] == m);
                    }
                }
            }
            assert forall|a: int, b: int| 0 <= a < b < k + 1 implies ids@[a] != ids@[b] by {
                if b == k {
                    assert(lists(before, a));
                    let i = choose|i: int| 0 <= i < before.len() && before[i] as int == a;
                    if i >= p {
                        assert(ids@[before[p as int] as int] <= ids@[before[i] as int]);
                    }
                }
            }
        }
        k += 1;
    }
    proof {
        assert(picked(ids@, order@).len() == n);
        assert forall|i: int, j: int|
            0 <= i < ids@.len() && 0 <= j < ids@.len() && i != j implies ids@[i] != ids@[j] by {
            if i < j {
                assert(ids@[i] != ids@[j]);
            } else {
                assert(ids@[j] != ids@[i]);
            }
        }
    }
    Some(order)
}

} // verus!
