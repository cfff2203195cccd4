//! What holds of the heap's model: sifting only rearranges, and under a
//! strict weak order it restores the heap order.
use vstd::prelude::*;
use crate::model::{
    drained, heap_ordered, in_priority_order, inserted, is_top, last_to_root, left_child,
    parent, preferred_child, right_child, root_removed, sift_down, sift_up, swapped,
};
use crate::order::strict_weak_order;

verus! {

/// Exchanging two elements keeps the length and the elements.
pub proof fn lemma_swapped_permutes<T>(s: Seq<T>, i: int, j: int)
    requires
        0 <= i < s.len(),
        0 <= j < s.len(),
    ensures
        swapped(s, i, j).len() == s.len(),
        swapped(s, i, j).to_multiset() == s.to_multiset(),
{
    broadcast use vstd::seq_lib::group_to_multiset_ensures;
    broadcast use vstd::multiset::group_multiset_axioms;

    let t = s.update(i, s[j]);
    assert(t.to_multiset() == s.to_multiset().insert(s[j]).remove(s[i]));
    assert(t[j] == s[j]);
    assert(swapped(s, i, j).to_multiset() == t.to_multiset().insert(s[i]).remove(s[j]));
    assert(swapped(s, i, j).to_multiset() =~= s.to_multiset());
}

/// Sifting up keeps the length and the elements.
pub proof fn lemma_sift_up_permutes<T>(s: Seq<T>, i: int, rel: spec_fn(T, T) -> bool)
    ensures
        sift_up(s, i, rel).len() == s.len(),
        sift_up(s, i, rel).to_multiset() == s.to_multiset(),
    decreases i,
{
    if 0 < i < s.len() && rel(s[i], s[parent(i)]) {
        lemma_swapped_permutes(s, i, parent(i));
        lemma_sift_up_permutes(swapped(s, i, parent(i)), parent(i), rel);
    }
}

/// Sifting down keeps the length and the elements.
pub proof fn lemma_sift_down_permutes<T>(s: Seq<T>, i: int, rel: spec_fn(T, T) -> bool)
    ensures
        sift_down(s, i, rel).len() == s.len(),
        sift_down(s, i, rel).to_multiset() == s.to_multiset(),
    decreases s.len() - i,
{
    if 0 <= i && left_child(i) < s.len() {
        let c = preferred_child(s, i, rel);
        if rel(s[c], s[i]) {
            lemma_swapped_permutes(s, i, c);
            lemma_sift_down_permutes(swapped(s, i, c), c, rel);
        }
    }
}

/// Adding a value adds that value to the elements and nothing else.
pub proof fn lemma_inserted_permutes<T>(s: Seq<T>, value: T, rel: spec_fn(T, T) -> bool)
    ensures
        inserted(s, value, rel).len() == s.len() + 1,
        inserted(s, value, rel).to_multiset() == s.to_multiset().insert(value),
{
    broadcast use vstd::seq_lib::group_to_multiset_ensures;

    lemma_sift_up_permutes(s.push(value), s.len() as int, rel);
}

/// Moving the last element to the root takes one occurrence of the root from
/// the elements and nothing else.
pub proof fn lemma_last_to_root_permutes<T>(s: Seq<T>)
    requires
        s.len() > 0,
    ensures
        last_to_root(s).len() == s.len() - 1,
        last_to_root(s).to_multiset() == s.to_multiset().remove(s[0]),
{
    broadcast use vstd::seq_lib::group_to_multiset_ensures;
    broadcast use vstd::multiset::group_multiset_axioms;

    let u = s.update(0, s.last());
    let t = u.drop_last();
    assert(u.to_multiset() == s.to_multiset().insert(s.last()).remove(s[0]));
    assert(t =~= u.remove(u.len() - 1));
    assert(u[u.len() - 1] == s.last());
    assert(t.to_multiset() == u.to_multiset().remove(s.last()));
    assert(s.to_multiset().count(s[0]) > 0);
    assert(t.to_multiset() =~= s.to_multiset().remove(s[0]));
}

/// Taking the root takes one occurrence of the root from the elements and
/// nothing else.
pub proof fn lemma_root_removed_permutes<T>(s: Seq<T>, rel: spec_fn(T, T) -> bool)
    requires
        s.len() > 0,
    ensures
        root_removed(s, rel).len() == s.len() - 1,
        root_removed(s, rel).to_multiset() == s.to_multiset().remove(s[0]),
{
    lemma_last_to_root_permutes(s);
    lemma_sift_down_permutes(last_to_root(s), 0, rel);
}

/// Heap order holds everywhere but between `i` and its parent, and the
/// children of `i` do not outrank the parent of `i`: the state in which a node
/// that is on its way up leaves the heap.
pub open spec fn ordered_but_above<T>(s: Seq<T>, i: int, rel: spec_fn(T, T) -> bool) -> bool {
    &&& forall|k: int| 1 <= k < s.len() && k != i ==> !rel(#[trigger] s[k], s[parent(k)])
    &&& i >= 1 ==> forall|k: int|
        1 <= k < s.len() && parent(k) == i ==> !rel(#[trigger] s[k], s[parent(i)])
}

/// Heap order holds everywhere but between `i` and its children, and the
/// children of `i` do not outrank the parent of `i`: the state in which a node
/// that is on its way down leaves the heap.
pub open spec fn ordered_but_below<T>(s: Seq<T>, i: int, rel: spec_fn(T, T) -> bool) -> bool {
    &&& forall|k: int|
        1 <= k < s.len() && parent(k) != i ==> !rel(#[trigger] s[k], s[parent(k)])
    &&& i >= 1 ==> forall|k: int|
        1 <= k < s.len() && parent(k) == i ==> !rel(#[trigger] s[k], s[parent(i)])
}

/// Sifting up the one node that may outrank its parent restores the heap
/// order.
pub proof fn lemma_sift_up_orders<T>(s: Seq<T>, i: int, rel: spec_fn(T, T) -> bool)
    requires
        strict_weak_order(rel),
        0 <= i < s.len(),
        ordered_but_above(s, i, rel),
    ensures
        heap_ordered(sift_up(s, i, rel), rel),
    decreases i,
{
    if 0 < i && rel(s[i], s[parent(i)]) {
        let p = parent(i);
        let t = swapped(s, i, p);
        assert(!rel(s[p], s[i]));
        assert forall|k: int| 1 <= k < t.len() && k != p implies !rel(
            #[trigger] t[k],
            t[parent(k)],
        ) by {
            if k == i {
            } else if parent(k) == i {
            } else if parent(k) == p {
                assert(!rel(s[k], s[p]));
            } else {
                assert(!rel(s[k], s[parent(k)]));
            }
        }
        if p >= 1 {
            assert forall|k: int| 1 <= k < t.len() && parent(k) == p implies !rel(
                #[trigger] t[k],
                t[parent(p)],
            ) by {
                assert(!rel(s[p], s[parent(p)]));
                if k != i {
                    assert(!rel(s[k], s[p]));
                }
            }
        }
        lemma_sift_up_orders(t, p, rel);
    } else {
        assert forall|k: int| 1 <= k < s.len() implies !rel(#[trigger] s[k], s[parent(k)]) by {}
    }
}

/// Sifting down the one node that its children may outrank restores the heap
/// order.
pub proof fn lemma_sift_down_orders<T>(s: Seq<T>, i: int, rel: spec_fn(T, T) -> bool)
    requires
        strict_weak_order(rel),
        0 <= i,
        ordered_but_below(s, i, rel),
    ensures
        heap_ordered(sift_down(s, i, rel), rel),
    decreases s.len() - i,
{
    if left_child(i) < s.len() {
        let c = preferred_child(s, i, rel);
        let l = left_child(i);
        let r = right_child(i);
        if rel(s[c], s[i]) {
            let t = swapped(s, i, c);
            assert(!rel(s[i], s[c]));
            assert forall|k: int| 1 <= k < t.len() && parent(k) != c implies !rel(
                #[trigger] t[k],
                t[parent(k)],
            ) by {
                if k == c {
                } else if parent(k) == i {
                    assert(k == l || k == r);
                    if c == r {
                        assert(!rel(s[l], s[r]));
                    }
                } else if k == i {
                    assert(!rel(s[c], s[parent(i)]));
                } else {
                    assert(!rel(s[k], s[parent(k)]));
                }
            }
            assert forall|k: int| 1 <= k < t.len() && parent(k) == c implies !rel(
                #[trigger] t[k],
                t[parent(c)],
            ) by {
                assert(!rel(s[k], s[c]));
            }
            lemma_sift_down_orders(t, c, rel);
        } else {
            assert forall|k: int| 1 <= k < s.len() implies !rel(
                #[trigger] s[k],
                s[parent(k)],
            ) by {
                if parent(k) == i {
                    assert(k == l || k == r);
                    if k != c {
                        if c == r {
                            assert(rel(s[r], s[l]));
                            assert(!rel(s[l], s[r]));
                        } else {
                            assert(!rel(s[r], s[l]));
                        }
                    }
                }
            }
        }
    } else {
        assert forall|k: int| 1 <= k < s.len() implies !rel(#[trigger] s[k], s[parent(k)]) by {
            assert(parent(k) != i);
        }
    }
}

/// In a heap the node at `k` does not outrank the root.
proof fn lemma_root_not_outranked<T>(s: Seq<T>, k: int, rel: spec_fn(T, T) -> bool)
    requires
        strict_weak_order(rel),
        heap_ordered(s, rel),
        0 <= k < s.len(),
    ensures
        !rel(s[k], s[0]),
    decreases k,
{
    if k > 0 {
        lemma_root_not_outranked(s, parent(k), rel);
        assert(!rel(s[k], s[parent(k)]));
    } else {
        if rel(s[0], s[0]) {
            assert(!rel(s[0], s[0]));
        }
    }
}

/// In a heap nothing outranks the root.
pub proof fn lemma_root_is_top<T>(s: Seq<T>, rel: spec_fn(T, T) -> bool)
    requires
        strict_weak_order(rel),
        heap_ordered(s, rel),
    ensures
        is_top(s, rel),
{
    assert forall|k: int| 0 <= k < s.len() implies !rel(#[trigger] s[k], s[0]) by {
        lemma_root_not_outranked(s, k, rel);
    }
}

/// Adding a value to a heap gives a heap.
pub proof fn lemma_inserted_ordered<T>(s: Seq<T>, value: T, rel: spec_fn(T, T) -> bool)
    requires
        strict_weak_order(rel),
        heap_ordered(s, rel),
    ensures
        heap_ordered(inserted(s, value, rel), rel),
{
    let t = s.push(value);
    assert forall|k: int| 1 <= k < t.len() && k != s.len() implies !rel(
        #[trigger] t[k],
        t[parent(k)],
    ) by {
        assert(!rel(s[k], s[parent(k)]));
    }
    lemma_sift_up_orders(t, s.len() as int, rel);
}

/// Taking the root of a heap leaves a heap.
pub proof fn lemma_root_removed_ordered<T>(s: Seq<T>, rel: spec_fn(T, T) -> bool)
    requires
        strict_weak_order(rel),
        heap_ordered(s, rel),
    ensures
        heap_ordered(root_removed(s, rel), rel),
{
    if s.len() > 0 {
        let t = last_to_root(s);
        assert forall|k: int| 1 <= k < t.len() && parent(k) != 0 implies !rel(
            #[trigger] t[k],
            t[parent(k)],
        ) by {
            assert(!rel(s[k], s[parent(k)]));
        }
        lemma_sift_down_orders(t, 0, rel);
    }
}

/// Draining yields every element of the heap, each as often as the heap holds
/// it, and nothing else.
pub proof fn lemma_drained_permutes<T>(s: Seq<T>, rel: spec_fn(T, T) -> bool)
    ensures
        drained(s, rel).len() == s.len(),
        drained(s, rel).to_multiset() == s.to_multiset(),
    decreases s.len(),
{
    broadcast use vstd::seq_lib::group_to_multiset_ensures;
    broadcast use vstd::multiset::group_multiset_axioms;

    if s.len() == 0 {
        assert(drained(s, rel) =~= s);
    } else {
        let t = root_removed(s, rel);
        lemma_root_removed_permutes(s, rel);
        lemma_drained_permutes(t, rel);
        let d = drained(t, rel);
        assert(drained(s, rel) =~= d.insert(0, s[0]));
        assert(s.to_multiset().count(s[0]) > 0);
        assert(drained(s, rel).to_multiset() =~= s.to_multiset());
    }
}

/// Draining a heap yields its elements in priority order: none of them
/// outranks one that came out before it.
pub proof fn lemma_drained_in_priority_order<T>(s: Seq<T>, rel: spec_fn(T, T) -> bool)
    requires
        strict_weak_order(rel),
        heap_ordered(s, rel),
    ensures
        in_priority_order(drained(s, rel), rel),
    decreases s.len(),
{
    broadcast use vstd::seq_lib::group_to_multiset_ensures;
    broadcast use vstd::multiset::group_multiset_axioms;

    if s.len() > 0 {
        let t = root_removed(s, rel);
        let d = drained(t, rel);
        lemma_root_removed_permutes(s, rel);
        lemma_root_removed_ordered(s, rel);
        lemma_drained_permutes(t, rel);
        lemma_drained_in_priority_order(t, rel);
        lemma_root_is_top(s, rel);
        let out = drained(s, rel);
        assert(out =~= seq![s[0]] + d);
        assert forall|i: int, j: int| 0 <= i < j < out.len() implies !rel(
            #[trigger] out[j],
            #[trigger] out[i],
        ) by {
            if i == 0 {
                let x = d[j - 1];
                assert(d.contains(x));
                assert(d.to_multiset().count(x) > 0);
                assert(s.to_multiset().count(x) > 0);
                assert(s.contains(x));
                let k = choose|k: int| 0 <= k < s.len() && s[k] == x;
                assert(!rel(s[k], s[0]));
            } else {
                assert(!rel(d[j - 1], d[i - 1]));
            }
        }
    }
}

} // verus!
