//! The order of texts, and stable sorting by a text key.

use vstd::prelude::*;

verus! {

/// The code point of a character.
pub open spec fn code(c: char) -> int {
    c as u32 as int
}

/// `a` comes before `b`, or equals it, in the order of texts: character by
/// character by code point, a proper prefix before its extensions.
pub open spec fn text_le(a: Seq<char>, b: Seq<char>) -> bool
    decreases a.len(),
{
    if a.len() == 0 {
        true
    } else if b.len() == 0 {
        false
    } else if a[0] != b[0] {
        code(a[0]) < code(b[0])
    } else {
        text_le(a.drop_first(), b.drop_first())
    }
}

/// Whether `a` comes before `b`, or equals it, in the order of texts.
pub fn le(a: &Vec<char>, b: &Vec<char>) -> (r: bool)
    ensures
        r == text_le(a@, b@),
{
    let mut i: usize = 0;
    proof {
        assert(a@.skip(0) =~= a@);
        assert(b@.skip(0) =~= b@);
    }
    loop
        invariant
            i <= a.len(),
            i <= b.len(),
            text_le(a@, b@) == text_le(a@.skip(i as int), b@.skip(i as int)),
        decreases a.len() - i,
    {
        if i == a.len() {
            return true;
        }
        if i == b.len() {
            return false;
        }
        let x = a[i];
        let y = b[i];
        proof {
            assert(a@.skip(i as int)[0] == x);
            assert(b@.skip(i as int)[0] == y);
            assert(a@.skip(i as int).drop_first() =~= a@.skip(i as int + 1));
            assert(b@.skip(i as int).drop_first() =~= b@.skip(i as int + 1));
        }
        if x != y {
            return (x as u32) < (y as u32);
        }
        i += 1;
    }
}

/// `order` with the index `x` put behind the last entry whose key is not
/// greater than the key of `x`.
pub open spec fn insert_index(order: Seq<int>, keys: Seq<Seq<char>>, x: int) -> Seq<int>
    decreases order.len(),
{
    if order.len() == 0 {
        seq![x]
    } else if text_le(keys[order.last()], keys[x]) {
        order.push(x)
    } else {
        insert_index(order.drop_last(), keys, x).push(order.last())
    }
}

/// The first `n` indices, arranged so that their keys ascend; indices with
/// equal keys stay in ascending order.
pub open spec fn sort_order(keys: Seq<Seq<char>>, n: int) -> Seq<int>
    decreases n,
{
    if n <= 0 {
        Seq::empty()
    } else {
        insert_index(sort_order(keys, n - 1), keys, n - 1)
    }
}

/// Inserting at the place the backward scan stops gives `insert_index`.
proof fn lemma_insert_at(order: Seq<int>, keys: Seq<Seq<char>>, x: int, p: int)
    requires
        0 <= p <= order.len(),
        forall|q: int| p <= q < order.len() ==> !text_le(keys[#[trigger] order[q]], keys[x]),
        p == 0 || text_le(keys[order[p - 1]], keys[x]),
    ensures
        insert_index(order, keys, x) == order.insert(p, x),
    decreases order.len() - p,
{
    if order.len() == 0 {
        assert(order.insert(p, x) =~= seq![x]);
    } else if p == order.len() {
        assert(order.insert(p, x) =~= order.push(x));
    } else {
        assert(!text_le(keys[order[order.len() - 1]], keys[x]));
        let shorter = order.drop_last();
        assert forall|q: int| p <= q < shorter.len() implies !text_le(
            keys[#[trigger] shorter[q]],
            keys[x],
        ) by {
            assert(shorter[q] == order[q]);
        }
        lemma_insert_at(shorter, keys, x, p);
        assert(shorter.insert(p, x).push(order.last()) =~= order.insert(p, x));
    }
}

/// The indices of `keys` arranged so that the keys ascend, equal keys in
/// the order they came in.
pub fn sorted_indices(keys: &Vec<Vec<char>>) -> (order: Vec<usize>)
    ensures
        order@.map_values(|i: usize| i as int) == sort_order(keys.deep_view(), keys.len() as int),
        order.len() == keys.len(),
        forall|i: int| 0 <= i < order.len() ==> (#[trigger] order[i]) < keys.len(),
{
    let ghost kv = keys.deep_view();
    let mut order: Vec<usize> = Vec::new();
    let mut x: usize = 0;
    assert(order@.map_values(|i: usize| i as int) =~= sort_order(kv, 0));
    while x < keys.len()
        invariant
            x <= keys.len(),
            kv == keys.deep_view(),
            order.len() == x,
            forall|i: int| 0 <= i < order.len() ==> (#[trigger] order[i]) < x,
            order@.map_values(|i: usize| i as int) == sort_order(kv, x as int),
        decreases keys.len() - x,
    {
        let ghost before = order@.map_values(|i: usize| i as int);
        let mut p: usize = order.len();
        while p > 0 && !le(&keys[order[p - 1]], &keys[x])
            invariant
                p <= order.len(),
                x < keys.len(),
                kv == keys.deep_view(),
                before == order@.map_values(|i: usize| i as int),
                forall|i: int| 0 <= i < order.len() ==> (#[trigger] order[i]) < x,
                forall|q: int|
                    p <= q < order.len() ==> !text_le(kv[#[trigger] before[q]], kv[x as int]),
            decreases p,
        {
            proof {
                assert(before[p - 1] == order[p - 1] as int);
                assert(kv[order[p - 1] as int] =~= keys[order[p - 1] as int]@);
                assert(kv[x as int] =~= keys[x as int]@);
            }
            p -= 1;
        }
        proof {
            if p > 0 {
                assert(before[p - 1] == order[p - 1] as int);
                assert(kv[order[p - 1] as int] =~= keys[order[p - 1] as int]@);
                assert(kv[x as int] =~= keys[x as int]@);
            }
            lemma_insert_at(before, kv, x as int, p as int);
        }
        order.insert(p, x);
        assert(order@.map_values(|i: usize| i as int) =~= before.insert(p as int, x as int));
        x += 1;
    }
    order
}

/// Different characters have different code points.
pub proof fn lemma_code_distinct(c: char, d: char)
    requires
        c != d,
    ensures
        code(c) != code(d),
{
}

/// Every text comes before itself or equals it.
pub proof fn lemma_text_le_refl(a: Seq<char>)
    ensures
        text_le(a, a),
    decreases a.len(),
{
    if a.len() > 0 {
        lemma_text_le_refl(a.drop_first());
    }
}

/// Of two texts one comes before the other, or they are equal.
pub proof fn lemma_text_le_total(a: Seq<char>, b: Seq<char>)
    ensures
        text_le(a, b) || text_le(b, a),
    decreases a.len(),
{
    if a.len() > 0 && b.len() > 0 {
        if a[0] == b[0] {
            lemma_text_le_total(a.drop_first(), b.drop_first());
        } else {
            lemma_code_distinct(a[0], b[0]);
        }
    }
}

/// The order of texts is transitive.
pub proof fn lemma_text_le_trans(a: Seq<char>, b: Seq<char>, c: Seq<char>)
    requires
        text_le(a, b),
        text_le(b, c),
    ensures
        text_le(a, c),
    decreases a.len(),
{
    if a.len() > 0 && b.len() > 0 && c.len() > 0 {
        if a[0] == b[0] && b[0] == c[0] {
            lemma_text_le_trans(a.drop_first(), b.drop_first(), c.drop_first());
        }
    }
}

/// Two texts that come before each other are the same text.
pub proof fn lemma_text_le_antisym(a: Seq<char>, b: Seq<char>)
    requires
        text_le(a, b),
        text_le(b, a),
    ensures
        a == b,
    decreases a.len(),
{
    if a.len() > 0 && b.len() > 0 {
        assert(a[0] == b[0]);
        lemma_text_le_antisym(a.drop_first(), b.drop_first());
        assert(a =~= seq![a[0]] + a.drop_first());
        assert(b =~= seq![b[0]] + b.drop_first());
    } else {
        assert(a =~= b);
    }
}

/// `order` arranges indices below `n`, each at most once, and ascends by
/// key, indices with equal keys in ascending order.
pub open spec fn stable_ascending(order: Seq<int>, keys: Seq<Seq<char>>, n: int) -> bool {
    &&& forall|i: int| 0 <= i < order.len() ==> 0 <= #[trigger] order[i] < n
    &&& forall|i: int, j: int|
        0 <= i < j < order.len() ==> text_le(keys[#[trigger] order[i]], keys[#[trigger] order[j]])
            && (text_le(keys[order[j]], keys[order[i]]) ==> order[i] < order[j])
}

/// Inserting a new, larger index keeps an arrangement stable and ascending,
/// and adds just that index.
#[verifier::rlimit(50)]
pub proof fn lemma_insert_keeps_order(order: Seq<int>, keys: Seq<Seq<char>>, x: int)
    requires
        0 <= x,
        stable_ascending(order, keys, x),
    ensures
        stable_ascending(insert_index(order, keys, x), keys, x + 1),
        insert_index(order, keys, x).len() == order.len() + 1,
        insert_index(order, keys, x).to_multiset() == order.to_multiset().insert(x),
    decreases order.len(),
{
    broadcast use vstd::seq_lib::group_to_multiset_ensures;

    let r = insert_index(order, keys, x);
    if order.len() == 0 {
        assert(r =~= Seq::<int>::empty().push(x));
        assert(order =~= Seq::<int>::empty());
    } else if text_le(keys[order.last()], keys[x]) {
        assert forall|i: int, j: int| 0 <= i < j < r.len() implies text_le(
            keys[#[trigger] r[i]],
            keys[#[trigger] r[j]],
        ) && (text_le(keys[r[j]], keys[r[i]]) ==> r[i] < r[j]) by {
            if j == order.len() {
                if i < order.len() - 1 {
                    assert(text_le(keys[order[i]], keys[order[order.len() - 1]]));
                    lemma_text_le_trans(keys[order[i]], keys[order.last()], keys[x]);
                }
            }
        }
    } else {
        let shorter = order.drop_last();
        let last = order.last();
        assert forall|i: int, j: int| 0 <= i < j < shorter.len() implies text_le(
            keys[#[trigger] shorter[i]],
            keys[#[trigger] shorter[j]],
        ) && (text_le(keys[shorter[j]], keys[shorter[i]]) ==> shorter[i] < shorter[j]) by {
            assert(shorter[i] == order[i]);
            assert(shorter[j] == order[j]);
        }
        assert forall|i: int| 0 <= i < shorter.len() implies 0 <= #[trigger] shorter[i] < x by {
            assert(shorter[i] == order[i]);
        }
        lemma_insert_keeps_order(shorter, keys, x);
        let inner = insert_index(shorter, keys, x);
        lemma_text_le_total(keys[last], keys[x]);
        assert(order =~= shorter.push(last));
        assert(inner.to_multiset().insert(last) =~= order.to_multiset().insert(x));
        assert forall|i: int| 0 <= i < inner.len() implies text_le(
            keys[#[trigger] inner[i]],
            keys[last],
        ) && (text_le(keys[last], keys[inner[i]]) ==> inner[i] < last) by {
            assert(inner.to_multiset().count(inner[i]) > 0);
            if inner[i] != x {
                assert(shorter.to_multiset().count(inner[i]) > 0);
                let k = choose|k: int| 0 <= k < shorter.len() && shorter[k] == inner[i];
                assert(shorter[k] == order[k]);
                assert(text_le(keys[order[k]], keys[order[order.len() - 1]]));
            }
        }
        assert forall|i: int, j: int| 0 <= i < j < r.len() implies text_le(
            keys[#[trigger] r[i]],
            keys[#[trigger] r[j]],
        ) && (text_le(keys[r[j]], keys[r[i]]) ==> r[i] < r[j]) by {
            if j < inner.len() {
                assert(r[i] == inner[i]);
                assert(r[j] == inner[j]);
            } else {
                assert(r[i] == inner[i]);
            }
        }
        assert forall|i: int| 0 <= i < r.len() implies 0 <= #[trigger] r[i] < x + 1 by {
            if i < inner.len() {
                assert(r[i] == inner[i]);
            }
        }
    }
}

/// Sorting arranges every index below `n` exactly once, in ascending order
/// of the keys, indices with equal keys in the order they came in.
pub proof fn lemma_sort_order_sorted(keys: Seq<Seq<char>>, n: int)
    requires
        0 <= n,
    ensures
        stable_ascending(sort_order(keys, n), keys, n),
        sort_order(keys, n).len() == n,
        forall|x: int|
            sort_order(keys, n).to_multiset().count(x) == (if 0 <= x < n {
                1nat
            } else {
                0nat
            }),
    decreases n,
{
    broadcast use vstd::seq_lib::group_to_multiset_ensures;

    if n > 0 {
        lemma_sort_order_sorted(keys, n - 1);
        lemma_insert_keeps_order(sort_order(keys, n - 1), keys, n - 1);
    } else {
        assert(sort_order(keys, n) =~= Seq::<int>::empty());
    }
}

} // verus!
