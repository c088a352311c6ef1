//! Ordering records by an integer key, as the decoder orders players by car id.
use vstd::prelude::*;

verus! {

/// Index `a` comes before index `b`: a smaller key, or an equal key and a
/// smaller index.
pub open spec fn precedes(keys: Seq<i32>, a: int, b: int) -> bool {
    keys[a] < keys[b] || (keys[a] == keys[b] && a < b)
}

/// `order` lists every index of `keys` once, by increasing key, and indices
/// with equal keys in increasing order.
pub open spec fn is_stable_sort_order(keys: Seq<i32>, order: Seq<usize>) -> bool {
    &&& order.len() == keys.len()
    &&& forall|i: int| 0 <= i < order.len() ==> #[trigger] order[i] < keys.len()
    &&& forall|i: int, j: int|
        0 <= i < j < order.len() ==> precedes(keys, #[trigger] order[i] as int, #[trigger] order[j] as int)
}

/// The indices of `keys` in stable sorted order.
pub fn sort_order_by_key(keys: &Vec<i32>) -> (order: Vec<usize>)
    ensures
        is_stable_sort_order(keys@, order@),
        order@.len() == keys@.len(),
        forall|i: int| 0 <= i < order@.len() ==> #[trigger] order@[i] < keys@.len(),
        forall|i: int, j: int|
            0 <= i < j < order@.len() ==> keys@[#[trigger] order@[i] as int] <= keys@[
                #[trigger] order@[j] as int
            ],
        forall|i: int, j: int|
            0 <= i < j < order@.len() && keys@[order@[i] as int] == keys@[order@[j] as int]
                ==> #[trigger] order@[i] < #[trigger] order@[j],
{
    let n = keys.len();
    let mut order: Vec<usize> = Vec::with_capacity(n);
    let mut idx: usize = 0;
    while idx < n
        invariant
            n == keys@.len(),
            idx <= n,
            order@.len() == idx,
            forall|i: int| 0 <= i < order@.len() ==> #[trigger] order@[i] < idx,
            forall|i: int, j: int|
                0 <= i < j < order@.len() ==> precedes(
                    keys@,
                    #[trigger] order@[i] as int,
                    #[trigger] order@[j] as int,
                ),
        decreases n - idx,
    {
        let key = keys[idx];
        let mut pos: usize = 0;
        while pos < order.len() && keys[order[pos]] <= key
            invariant
                n == keys@.len(),
                idx < n,
                key == keys@[idx as int],
                pos <= order@.len(),
                forall|i: int| 0 <= i < order@.len() ==> #[trigger] order@[i] < idx,
                forall|i: int| 0 <= i < pos ==> keys@[#[trigger] order@[i] as int] <= key,
            decreases order@.len() - pos,
        {
            pos += 1;
        }
        let ghost old_order = order@;
        proof {
            assert forall|i: int| pos <= i < old_order.len() implies key < keys@[
                #[trigger] old_order[i] as int
            ] by {
                if i > pos as int {
                    assert(precedes(keys@, old_order[pos as int] as int, old_order[i] as int));
                }
            }
        }
        order.insert(pos, idx);
        proof {
            let o = order@;
            assert forall|i: int| 0 <= i < o.len() implies #[trigger] o[i] < idx + 1 by {
                if i < pos {
                    assert(o[i] == old_order[i]);
                } else if i > pos {
                    assert(o[i] == old_order[i - 1]);
                }
            }
            assert forall|i: int, j: int| 0 <= i < j < o.len() implies precedes(
                keys@,
                #[trigger] o[i] as int,
                #[trigger] o[j] as int,
            ) by {
                if j < pos {
                    assert(o[i] == old_order[i] && o[j] == old_order[j]);
                } else if j == pos {
                    assert(o[i] == old_order[i]);
                } else if i < pos {
                    assert(o[i] == old_order[i] && o[j] == old_order[j - 1]);
                } else if i == pos {
                    assert(o[j] == old_order[j - 1]);
                } else {
                    assert(o[i] == old_order[i - 1] && o[j] == old_order[j - 1]);
                }
            }
        }
        idx += 1;
    }
    proof {
        lemma_stable_sort_order_sorted(keys@, order@);
    }
    order
}

/// The items of `items` at the positions listed in `order`, in that order.
pub fn permute<R: Copy>(items: &Vec<R>, order: &Vec<usize>) -> (out: Vec<R>)
    requires
        forall|i: int| 0 <= i < order@.len() ==> #[trigger] order@[i] < items@.len(),
    ensures
        out@.len() == order@.len(),
        forall|i: int| 0 <= i < order@.len() ==> #[trigger] out@[i] == items@[order@[i] as int],
{
    let mut out: Vec<R> = Vec::with_capacity(order.len());
    let mut i: usize = 0;
    while i < order.len()
        invariant
            i <= order@.len(),
            forall|k: int| 0 <= k < order@.len() ==> #[trigger] order@[k] < items@.len(),
            out@.len() == i,
            forall|k: int| 0 <= k < i ==> #[trigger] out@[k] == items@[order@[k] as int],
        decreases order@.len() - i,
    {
        out.push(items[order[i]]);
        i += 1;
    }
    out
}

/// The items reordered by `keys[i]`, the key of `items[i]`: increasing keys,
/// equal keys in their original order.
pub fn sort_by_key_stable<R: Copy>(items: &Vec<R>, keys: &Vec<i32>) -> (sorted: Vec<R>)
    requires
        keys@.len() == items@.len(),
    ensures
        exists|order: Seq<usize>|
            #![trigger is_stable_sort_order(keys@, order)]
            is_stable_sort_order(keys@, order) && sorted@ == order.map_values(
                |i: usize| items@[i as int],
            ),
        sorted@.len() == items@.len(),
        exists|order: Seq<usize>|
            #![trigger is_stable_sort_order(keys@, order)]
            {
                &&& is_stable_sort_order(keys@, order)
                &&& order.len() == keys@.len()
                &&& forall|i: int| 0 <= i < order.len() ==> #[trigger] order[i] < keys@.len()
                &&& forall|i: int| 0 <= i < order.len() ==> #[trigger] sorted@[i] == items@[order[i] as int]
                &&& forall|i: int, j: int|
                    0 <= i < j < order.len() ==> keys@[#[trigger] order[i] as int] <= keys@[
                        #[trigger] order[j] as int
                    ]
                &&& forall|i: int, j: int|
                    0 <= i < j < order.len() && keys@[order[i] as int] == keys@[order[j] as int]
                        ==> #[trigger] order[i] < #[trigger] order[j]
            },
{
    let order = sort_order_by_key(keys);
    let sorted = permute(items, &order);
    assert(sorted@ =~= order@.map_values(|i: usize| items@[i as int]));
    sorted
}


/// `order` holds the index `a` somewhere.
pub open spec fn lists(order: Seq<usize>, a: int) -> bool {
    exists|j: int| 0 <= j < order.len() && order[j] == a
}

/// A stable sort order lists every index of `keys`.
pub proof fn lemma_stable_sort_order_covers(keys: Seq<i32>, order: Seq<usize>)
    requires
        is_stable_sort_order(keys, order),
    ensures
        forall|a: int| 0 <= a < keys.len() ==> #[trigger] lists(order, a),
{
    let n = keys.len() as int;
    let oi = order.map_values(|x: usize| x as int);
    assert forall|i: int, j: int| 0 <= i < oi.len() && 0 <= j < oi.len() && i != j implies oi[i]
        != oi[j] by {
        if i < j {
            assert(precedes(keys, order[i] as int, order[j] as int));
        } else {
            assert(precedes(keys, order[j] as int, order[i] as int));
        }
    }
    oi.unique_seq_to_set();
    vstd::set_lib::lemma_int_range(0, n);
    let full = vstd::set_lib::set_int_range(0, n);
    assert(oi.to_set().subset_of(full)) by {
        assert forall|x: int| oi.to_set().contains(x) implies full.contains(x) by {
            let j = choose|j: int| 0 <= j < oi.len() && oi[j] == x;
            assert(order[j] < keys.len());
        }
    }
    vstd::seq_lib::seq_to_set_is_finite(oi);
    vstd::set_lib::lemma_subset_equality(oi.to_set(), full);
    assert forall|a: int| 0 <= a < keys.len() implies #[trigger] lists(order, a) by {
        assert(full.contains(a));
        assert(oi.to_set().contains(a));
        let j = choose|j: int| 0 <= j < oi.len() && oi[j] == a;
        assert(order[j] == a);
    }
}

proof fn lemma_stable_sort_orders_agree_upto(
    keys: Seq<i32>,
    o1: Seq<usize>,
    o2: Seq<usize>,
    i: int,
)
    requires
        is_stable_sort_order(keys, o1),
        is_stable_sort_order(keys, o2),
        0 <= i < o1.len(),
    ensures
        forall|m: int| 0 <= m <= i ==> o1[m] == o2[m],
    decreases i,
{
    if i > 0 {
        lemma_stable_sort_orders_agree_upto(keys, o1, o2, i - 1);
    }
    let a = o1[i];
    let b = o2[i];
    if a != b {
        lemma_stable_sort_order_covers(keys, o1);
        lemma_stable_sort_order_covers(keys, o2);
        assert(lists(o2, a as int));
        assert(lists(o1, b as int));
        let j = choose|j: int| 0 <= j < o2.len() && o2[j] == a as int;
        let jj = choose|j: int| 0 <= j < o1.len() && o1[j] == b as int;
        if j < i {
            assert(o1[j] == o2[j]);
            assert(precedes(keys, o1[j] as int, o1[i] as int));
        } else {
            assert(precedes(keys, o2[i] as int, o2[j] as int));
            if jj < i {
                assert(o1[jj] == o2[jj]);
                assert(precedes(keys, o2[jj] as int, o2[i] as int));
            } else {
                assert(precedes(keys, o1[i] as int, o1[jj] as int));
            }
        }
    }
}

/// The stable sort order of a sequence of keys is unique: the contract of
/// `sort_order_by_key` determines its result.
pub proof fn lemma_stable_sort_order_unique(keys: Seq<i32>, o1: Seq<usize>, o2: Seq<usize>)
    requires
        is_stable_sort_order(keys, o1),
        is_stable_sort_order(keys, o2),
    ensures
        o1 == o2,
{
    if o1.len() > 0 {
        lemma_stable_sort_orders_agree_upto(keys, o1, o2, o1.len() - 1);
    }
    assert(o1 =~= o2);
}

/// What a stable sort order is, without `precedes`: the keys it lists never
/// decrease, indices with equal keys come in increasing order, no index comes
/// twice, and every index of `keys` comes.
pub proof fn lemma_stable_sort_order_sorted(keys: Seq<i32>, order: Seq<usize>)
    requires
        is_stable_sort_order(keys, order),
    ensures
        order.len() == keys.len(),
        forall|i: int, j: int|
            0 <= i < j < order.len() ==> keys[#[trigger] order[i] as int] <= keys[#[trigger] order[j] as int],
        forall|i: int, j: int|
            0 <= i < j < order.len() && keys[order[i] as int] == keys[order[j] as int] ==> #[trigger] order[i]
                < #[trigger] order[j],
        forall|i: int, j: int|
            0 <= i < order.len() && 0 <= j < order.len() && i != j ==> #[trigger] order[i] != #[trigger] order[j],
        forall|a: int| 0 <= a < keys.len() ==> #[trigger] lists(order, a),
{
    assert forall|i: int, j: int|
        0 <= i < order.len() && 0 <= j < order.len() && i != j implies #[trigger] order[i] != #[trigger] order[j] by {
        if i < j {
            assert(precedes(keys, order[i] as int, order[j] as int));
        } else {
            assert(precedes(keys, order[j] as int, order[i] as int));
        }
    }
    lemma_stable_sort_order_covers(keys, order);
}

} // verus!
