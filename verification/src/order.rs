//! Stable ordering of rows by a numeric key, largest first.
use vstd::prelude::*;

use crate::text::all_distinct;

verus! {

/// `order` lists every index of `keys` once, by descending key; equal keys keep
/// the order they came in (what a stable sort by descending key gives).
pub open spec fn stable_desc_order(keys: Seq<i128>, order: Seq<int>) -> bool {
    &&& order.len() == keys.len()
    &&& forall|i: int| 0 <= i < order.len() ==> 0 <= #[trigger] order[i] < keys.len()
    &&& all_distinct(order)
    &&& forall|k: int| 0 <= k < keys.len() ==> #[trigger] order.contains(k)
    &&& forall|i: int, j: int|
        #![trigger order[i], order[j]]
        0 <= i < j < order.len() ==> keys[order[i]] > keys[order[j]] || (keys[order[i]]
            == keys[order[j]] && order[i] < order[j])
}

/// The order of the first `n` indices, as `usize` values seen as integers.
pub open spec fn as_ints(v: Seq<usize>) -> Seq<int> {
    v.map_values(|x: usize| x as int)
}

proof fn lemma_insert_index(keys: Seq<i128>, order: Seq<int>, n: int, p: int)
    requires
        0 <= n < keys.len(),
        0 <= p <= order.len(),
        stable_desc_order(keys.take(n), order),
        forall|k: int| 0 <= k < p ==> !(keys[#[trigger] order[k]] < keys[n]),
        p < order.len() ==> keys[order[p]] < keys[n],
    ensures
        stable_desc_order(keys.take(n + 1), order.insert(p, n)),
{
    let after = order.insert(p, n);
    order.insert_ensures(p, n);
    let kt = keys.take(n);
    assert forall|i: int| 0 <= i < order.len() implies 0 <= #[trigger] order[i] < n by {}
    assert forall|i: int| 0 <= i < after.len() implies 0 <= #[trigger] after[i] < n + 1 by {
        if i < p {
            assert(after[i] == order[i]);
        } else if i > p {
            assert(after[i] == order[i - 1]);
        }
    }
    assert forall|a: int, b: int|
        0 <= a < after.len() && 0 <= b < after.len() && a != b implies after[a] != after[b] by {
        if a == p {
            if b < p {
                assert(after[b] == order[b]);
            } else {
                assert(after[b] == order[b - 1]);
            }
        } else if b == p {
            if a < p {
                assert(after[a] == order[a]);
            } else {
                assert(after[a] == order[a - 1]);
            }
        } else {
            let a0 = if a < p { a } else { a - 1 };
            let b0 = if b < p { b } else { b - 1 };
            assert(after[a] == order[a0] && after[b] == order[b0]);
        }
    }
    assert forall|k: int| 0 <= k < n + 1 implies #[trigger] after.contains(k) by {
        if k == n {
            assert(after[p] == n);
        } else {
            assert(order.contains(k));
            let t = choose|t: int| 0 <= t < order.len() && order[t] == k;
            if t < p {
                assert(after[t] == k);
            } else {
                assert(after[t + 1] == k);
            }
        }
    }
    assert forall|i: int, j: int| 0 <= i < j < after.len() implies keys[after[i]] > keys[after[j]]
        || (keys[after[i]] == keys[after[j]] && after[i] < after[j]) by {
        if j < p {
            assert(after[i] == order[i] && after[j] == order[j]);
            assert(kt[order[i]] == keys[order[i]] && kt[order[j]] == keys[order[j]]);
        } else if j == p {
            assert(after[i] == order[i]);
            assert(order[i] < n);
        } else if i == p {
            assert(after[j] == order[j - 1]);
            if j - 1 > p {
                assert(kt[order[p]] == keys[order[p]] && kt[order[j - 1]] == keys[order[j - 1]]);
            }
        } else if i < p {
            assert(after[i] == order[i] && after[j] == order[j - 1]);
            assert(kt[order[i]] == keys[order[i]] && kt[order[j - 1]] == keys[order[j - 1]]);
        } else {
            assert(after[i] == order[i - 1] && after[j] == order[j - 1]);
            assert(kt[order[i - 1]] == keys[order[i - 1]] && kt[order[j - 1]]
                == keys[order[j - 1]]);
        }
    }
}

/// The indices of `keys` by descending key, equal keys in the order they came in.
pub fn stable_order_desc(keys: &Vec<i128>) -> (order: Vec<usize>)
    ensures
        stable_desc_order(keys@, as_ints(order@)),
{
    let mut order: Vec<usize> = Vec::new();
    let mut n: usize = 0;
    assert(as_ints(order@) =~= Seq::<int>::empty());
    while n < keys.len()
        invariant
            n <= keys@.len(),
            stable_desc_order(keys@.take(n as int), as_ints(order@)),
        decreases keys.len() - n,
    {
        let ghost before = as_ints(order@);
        let mut p: usize = 0;
        while p < order.len()
            invariant
                p <= order@.len(),
                before == as_ints(order@),
                stable_desc_order(keys@.take(n as int), before),
                n < keys@.len(),
                forall|k: int| 0 <= k < p ==> !(keys@[#[trigger] before[k]] < keys@[n as int]),
            ensures
                p <= order@.len(),
                forall|k: int| 0 <= k < p ==> !(keys@[#[trigger] before[k]] < keys@[n as int]),
                p < order@.len() ==> keys@[before[p as int]] < keys@[n as int],
            decreases order.len() - p,
        {
            let idx = order[p];
            assert(before[p as int] == idx as int);
            assert(0 <= before[p as int] < n);
            if keys[idx] < keys[n] {
                break;
            }
            p = p + 1;
        }
        proof {
            lemma_insert_index(keys@, before, n as int, p as int);
        }
        order.insert(p, n);
        assert(as_ints(order@) =~= before.insert(p as int, n as int));
        n = n + 1;
    }
    assert(keys@.take(keys@.len() as int) =~= keys@);
    order
}

/// The elements increase strictly from each position to every later one.
pub open spec fn increasing(s: Seq<i64>) -> bool {
    forall|i: int, j: int| 0 <= i < j < s.len() ==> s[i] < s[j]
}

/// The distinct values of `items`, in increasing order.
pub fn sorted_distinct_i64(items: &Vec<i64>) -> (out: Vec<i64>)
    ensures
        increasing(out@),
        out@.to_set() == items@.to_set(),
{
    let mut out: Vec<i64> = Vec::new();
    let mut i: usize = 0;
    assert(items@.take(0).to_set() =~= out@.to_set());
    while i < items.len()
        invariant
            i <= items@.len(),
            increasing(out@),
            out@.to_set() == items@.take(i as int).to_set(),
        decreases items.len() - i,
    {
        let x = items[i];
        assert(items@.take(i + 1) =~= items@.take(i as int).push(x));
        proof {
            items@.take(i as int).lemma_push_to_set_commute(x);
        }
        let ghost before = out@;
        let mut p: usize = 0;
        while p < out.len() && out[p] < x
            invariant
                p <= out@.len(),
                out@ == before,
                forall|k: int| 0 <= k < p ==> before[k] < x,
            decreases out.len() - p,
        {
            p = p + 1;
        }
        if p < out.len() && out[p] == x {
            assert(before.to_set().insert(x) =~= before.to_set());
        } else {
            out.insert(p, x);
            proof {
                before.insert_ensures(p as int, x);
                let after = out@;
                assert forall|a: int, b: int| 0 <= a < b < after.len() implies after[a] < after[b] by {
                    if b < p {
                        assert(after[a] == before[a] && after[b] == before[b]);
                    } else if b == p {
                        assert(after[a] == before[a]);
                    } else if a == p {
                        assert(after[b] == before[b - 1]);
                        assert(before[p as int] >= x);
                    } else if a < p {
                        assert(after[a] == before[a] && after[b] == before[b - 1]);
                    } else {
                        assert(after[a] == before[a - 1] && after[b] == before[b - 1]);
                    }
                }
                assert forall|y: i64| after.contains(y) <==> before.to_set().insert(x).contains(y) by {
                    if after.contains(y) {
                        let k = choose|k: int| 0 <= k < after.len() && after[k] == y;
                        if k < p {
                            assert(before[k] == y);
                        } else if k > p {
                            assert(before[k - 1] == y);
                        }
                    }
                    if before.contains(y) {
                        let k = choose|k: int| 0 <= k < before.len() && before[k] == y;
                        if k < p {
                            assert(after[k] == y);
                        } else {
                            assert(after[k + 1] == y);
                        }
                    }
                    if y == x {
                        assert(after[p as int] == y);
                    }
                }
                assert(after.to_set() =~= before.to_set().insert(x));
            }
        }
        i = i + 1;
    }
    assert(items@.take(items@.len() as int) =~= items@);
    out
}

} // verus!
