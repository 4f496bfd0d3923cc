//! Stable ordering of items by integer sort keys.
use vstd::prelude::*;

verus! {

/// `a` sorts strictly before `b`: lexicographic order on the pair.
pub open spec fn key_lt(a: (i64, i64), b: (i64, i64)) -> bool {
    a.0 < b.0 || (a.0 == b.0 && a.1 < b.1)
}

/// Where an item with key `k` goes into `order`: before the first entry
/// whose key is greater than `k`, after all others.
pub open spec fn insert_pos(order: Seq<usize>, keys: Seq<(i64, i64)>, k: (i64, i64)) -> nat
    decreases order.len(),
{
    if order.len() == 0 {
        0
    } else if key_lt(k, keys[order[0] as int]) {
        0
    } else {
        1 + insert_pos(order.drop_first(), keys, k)
    }
}

/// The stable sorted order of the first `n` items with `keys`: indices,
/// each inserted in turn after every earlier index with a key that is not
/// greater.
pub open spec fn sorted_order(keys: Seq<(i64, i64)>, n: nat) -> Seq<usize>
    decreases n,
{
    if n == 0 {
        Seq::<usize>::empty()
    } else {
        let o = sorted_order(keys, (n - 1) as nat);
        o.insert(insert_pos(o, keys, keys[n - 1]) as int, (n - 1) as usize)
    }
}

proof fn lemma_insert_pos_bound(order: Seq<usize>, keys: Seq<(i64, i64)>, k: (i64, i64))
    ensures
        insert_pos(order, keys, k) <= order.len(),
    decreases order.len(),
{
    if order.len() > 0 && !key_lt(k, keys[order[0] as int]) {
        lemma_insert_pos_bound(order.drop_first(), keys, k);
    }
}

/// The sorted order holds `n` indices, each below `n`.
pub proof fn lemma_sorted_order_bounds(keys: Seq<(i64, i64)>, n: nat)
    ensures
        sorted_order(keys, n).len() == n,
        forall|j: int| 0 <= j < n ==> #[trigger] sorted_order(keys, n)[j] < n,
    decreases n,
{
    if n > 0 {
        let o = sorted_order(keys, (n - 1) as nat);
        lemma_sorted_order_bounds(keys, (n - 1) as nat);
        lemma_insert_pos_bound(o, keys, keys[n - 1]);
        let p = insert_pos(o, keys, keys[n - 1]) as int;
        assert forall|j: int| 0 <= j < n implies #[trigger] sorted_order(keys, n)[j] < n by {
            if j < p {
                assert(sorted_order(keys, n)[j] == o[j]);
            } else if j > p {
                assert(sorted_order(keys, n)[j] == o[j - 1]);
            }
        }
    }
}

/// The indices of `keys` in stable sorted order, as `slice::sort_by` with
/// this key order leaves the items.
pub fn stable_sort_order(keys: &Vec<(i64, i64)>) -> (res: Vec<usize>)
    ensures
        res@ == sorted_order(keys@, keys@.len()),
{
    let n = keys.len();
    let mut order: Vec<usize> = Vec::new();
    let mut i: usize = 0;
    while i < n
        invariant
            n == keys@.len(),
            i <= n,
            order@ == sorted_order(keys@, i as nat),
        decreases n - i,
    {
        proof {
            lemma_sorted_order_bounds(keys@, i as nat);
        }
        let k = keys[i];
        let mut j: usize = 0;
        assert(order@.skip(0) =~= order@);
        while j < order.len() && !(k.0 < keys[order[j]].0 || (k.0 == keys[order[j]].0 && k.1
            < keys[order[j]].1))
            invariant
                n == keys@.len(),
                i < n,
                k == keys@[i as int],
                order@ == sorted_order(keys@, i as nat),
                order@.len() == i,
                forall|q: int| 0 <= q < i ==> #[trigger] order@[q] < i,
                j <= order@.len(),
                insert_pos(order@, keys@, k) == j + insert_pos(order@.skip(j as int), keys@, k),
            decreases order@.len() - j,
        {
            assert(order@.skip(j as int).drop_first() =~= order@.skip(j + 1));
            j = j + 1;
        }
        if j < order.len() {
            assert(order@.skip(j as int)[0] == order@[j as int]);
        }
        order.insert(j, i);
        i = i + 1;
    }
    order
}

/// `order` lists items in ascending key order.
pub open spec fn is_sorted_by(order: Seq<usize>, keys: Seq<(i64, i64)>) -> bool {
    forall|a: int, b: int|
        0 <= a < b < order.len() ==> !key_lt(keys[order[b] as int], keys[order[a] as int])
}

/// Items with equal keys keep their original relative order in `order`.
pub open spec fn is_stable(order: Seq<usize>, keys: Seq<(i64, i64)>) -> bool {
    forall|a: int, b: int|
        0 <= a < b < order.len() && keys[order[a] as int] == keys[order[b] as int] ==> order[a]
            < order[b]
}

/// `order` lists each of the indices `0..n` exactly once.
pub open spec fn is_permutation_of_range(order: Seq<usize>, n: nat) -> bool {
    &&& order.len() == n
    &&& forall|a: int| 0 <= a < order.len() ==> #[trigger] order[a] < n
    &&& forall|a: int, b: int| 0 <= a < b < order.len() ==> order[a] != order[b]
    &&& forall|i: int| 0 <= i < n ==> #[trigger] order.contains(i as usize)
}

proof fn lemma_insert_pos_props(order: Seq<usize>, keys: Seq<(i64, i64)>, k: (i64, i64))
    ensures
        insert_pos(order, keys, k) <= order.len(),
        forall|j: int|
            0 <= j < insert_pos(order, keys, k) ==> !key_lt(k, #[trigger] keys[order[j] as int]),
        insert_pos(order, keys, k) < order.len() ==> key_lt(
            k,
            keys[order[insert_pos(order, keys, k) as int] as int],
        ),
    decreases order.len(),
{
    if order.len() > 0 && !key_lt(k, keys[order[0] as int]) {
        let rest = order.drop_first();
        lemma_insert_pos_props(rest, keys, k);
        assert forall|j: int|
            0 <= j < insert_pos(order, keys, k) implies !key_lt(
            k,
            #[trigger] keys[order[j] as int],
        ) by {
            if j > 0 {
                assert(order[j] == rest[j - 1]);
            }
        }
    }
}

/// The stable sorted order is a sorted, stable permutation of the item
/// indices: exactly what a stable sort by these keys yields.
pub proof fn lemma_sorted_order_is_stable_sort(keys: Seq<(i64, i64)>, n: nat)
    requires
        n <= keys.len(),
        n <= usize::MAX,
    ensures
        is_permutation_of_range(sorted_order(keys, n), n),
        is_sorted_by(sorted_order(keys, n), keys),
        is_stable(sorted_order(keys, n), keys),
    decreases n,
{
    let res = sorted_order(keys, n);
    if n == 0 {
        return ;
    }
    let m = (n - 1) as nat;
    let o = sorted_order(keys, m);
    lemma_sorted_order_is_stable_sort(keys, m);
    let k = keys[m as int];
    lemma_insert_pos_props(o, keys, k);
    let p = insert_pos(o, keys, k) as int;
    assert(res == o.insert(p, m as usize));
    assert(res.len() == n);
    // Where each entry of the result comes from.
    assert forall|a: int| 0 <= a < res.len() implies #[trigger] res[a] == if a < p {
        o[a]
    } else if a == p {
        m as usize
    } else {
        o[a - 1]
    } by {}
    assert forall|a: int| 0 <= a < res.len() implies #[trigger] res[a] < n by {}
    assert forall|a: int, b: int| 0 <= a < b < res.len() implies res[a] != res[b] by {
        let oa = if a < p { a } else { a - 1 };
        let ob = if b < p { b } else { b - 1 };
        if a == p {
            assert(o[ob] < m);
        } else if b == p {
            assert(o[oa] < m);
        } else {
            assert(oa < ob);
            assert(o[oa] != o[ob]);
        }
    }
    assert forall|i: int| 0 <= i < n implies #[trigger] res.contains(i as usize) by {
        if i == m {
            assert(res[p] == i as usize);
        } else {
            assert(o.contains(i as usize));
            let a = choose|a: int| 0 <= a < o.len() && o[a] == i as usize;
            if a < p {
                assert(res[a] == i as usize);
            } else {
                assert(res[a + 1] == i as usize);
            }
        }
    }
    assert forall|a: int, b: int| 0 <= a < b < res.len() implies !key_lt(
        keys[res[b] as int],
        keys[res[a] as int],
    ) by {
        let oa = if a < p { a } else { a - 1 };
        let ob = if b < p { b } else { b - 1 };
        if a == p {
            // the new entry sorts before everything from position p on
            assert(key_lt(k, keys[o[p] as int]));
            if ob > p {
                assert(!key_lt(keys[o[ob] as int], keys[o[p] as int]));
            }
        } else if b == p {
            assert(!key_lt(k, keys[o[oa] as int]));
        } else {
            assert(oa < ob);
            assert(!key_lt(keys[o[ob] as int], keys[o[oa] as int]));
        }
    }
    assert forall|a: int, b: int|
        0 <= a < b < res.len() && keys[res[a] as int] == keys[res[b] as int] implies res[a]
        < res[b] by {
        let oa = if a < p { a } else { a - 1 };
        let ob = if b < p { b } else { b - 1 };
        if a == p {
            assert(key_lt(k, keys[o[p] as int]));
            if ob > p {
                assert(!key_lt(keys[o[ob] as int], keys[o[p] as int]));
            }
        } else if b == p {
            assert(o[oa] < m);
        } else {
            assert(oa < ob);
        }
    }
}

/// The order that leaves `n` items where they are.
pub open spec fn identity_order(n: nat) -> Seq<usize> {
    Seq::new(n, |i: int| i as usize)
}

/// The first `n` keys are already in ascending order.
pub open spec fn keys_sorted(keys: Seq<(i64, i64)>, n: nat) -> bool {
    forall|a: int, b: int| 0 <= a < b < n ==> !key_lt(#[trigger] keys[b], #[trigger] keys[a])
}

/// Items whose keys are already in order stay where they are.
pub proof fn lemma_sorted_keys_keep_order(keys: Seq<(i64, i64)>, n: nat)
    requires
        n <= keys.len(),
        n <= usize::MAX,
        keys_sorted(keys, n),
    ensures
        sorted_order(keys, n) == identity_order(n),
    decreases n,
{
    if n > 0 {
        let m = (n - 1) as nat;
        lemma_sorted_keys_keep_order(keys, m);
        let o = sorted_order(keys, m);
        lemma_insert_pos_props(o, keys, keys[m as int]);
        let p = insert_pos(o, keys, keys[m as int]);
        if p < o.len() {
            assert(o[p as int] == p as usize);
            assert(!key_lt(keys[m as int], keys[p as int]));
        }
        assert(p == m);
        assert(o.insert(m as int, m as usize) =~= identity_order(n));
    }
}

/// Sorting is idempotent: the items in their sorted order, sorted again,
/// stay where they are.
pub proof fn lemma_sorting_twice_keeps_order(keys: Seq<(i64, i64)>, n: nat)
    requires
        n <= keys.len(),
        n <= usize::MAX,
    ensures
        ({
            let o = sorted_order(keys, n);
            let again = Seq::new(n, |i: int| keys[o[i] as int]);
            sorted_order(again, n) == identity_order(n)
        }),
{
    let o = sorted_order(keys, n);
    lemma_sorted_order_is_stable_sort(keys, n);
    let again = Seq::new(n, |i: int| keys[o[i] as int]);
    assert forall|a: int, b: int| 0 <= a < b < n implies !key_lt(
        #[trigger] again[b],
        #[trigger] again[a],
    ) by {}
    lemma_sorted_keys_keep_order(again, n);
}

} // verus!
