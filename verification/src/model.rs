//! The heap as a sequence: the element at position `i` is the node whose
//! parent is at `(i - 1) / 2` and whose children are at `2 i + 1` and
//! `2 i + 2`. Position 0 is the root. A relation `rel` says of two elements
//! whether the first outranks the second.
use vstd::prelude::*;
use crate::laws::lemma_root_removed_permutes;

verus! {

/// The position of the parent of the node at `i`, for `i` above 0.
pub open spec fn parent(i: int) -> int {
    (i - 1) / 2
}

/// The position of the left child of the node at `i`.
pub open spec fn left_child(i: int) -> int {
    2 * i + 1
}

/// The position of the right child of the node at `i`.
pub open spec fn right_child(i: int) -> int {
    2 * i + 2
}

/// `s` with the elements at `i` and `j` exchanged.
pub open spec fn swapped<T>(s: Seq<T>, i: int, j: int) -> Seq<T> {
    s.update(i, s[j]).update(j, s[i])
}

/// No node outranks its parent.
pub open spec fn heap_ordered<T>(s: Seq<T>, rel: spec_fn(T, T) -> bool) -> bool {
    forall|i: int| 1 <= i < s.len() ==> !rel(#[trigger] s[i], s[parent(i)])
}

/// Nothing in `s` outranks its first element.
pub open spec fn is_top<T>(s: Seq<T>, rel: spec_fn(T, T) -> bool) -> bool {
    forall|k: int| 0 <= k < s.len() ==> !rel(#[trigger] s[k], s[0])
}

/// The node at `i` climbs while it outranks its parent, and rests at the root
/// or under the first parent that it does not outrank.
pub open spec fn sift_up<T>(s: Seq<T>, i: int, rel: spec_fn(T, T) -> bool) -> Seq<T>
    decreases i,
{
    if 0 < i < s.len() && rel(s[i], s[parent(i)]) {
        sift_up(swapped(s, i, parent(i)), parent(i), rel)
    } else {
        s
    }
}

/// Of the children of `i`, the one to compare `i` with: the left one, unless
/// there is a right one that outranks it.
pub open spec fn preferred_child<T>(s: Seq<T>, i: int, rel: spec_fn(T, T) -> bool) -> int {
    if right_child(i) < s.len() && rel(s[right_child(i)], s[left_child(i)]) {
        right_child(i)
    } else {
        left_child(i)
    }
}

/// The node at `i` sinks while its preferred child outranks it.
pub open spec fn sift_down<T>(s: Seq<T>, i: int, rel: spec_fn(T, T) -> bool) -> Seq<T>
    decreases s.len() - i,
{
    if 0 <= i && left_child(i) < s.len() {
        let c = preferred_child(s, i, rel);
        if rel(s[c], s[i]) {
            sift_down(swapped(s, i, c), c, rel)
        } else {
            s
        }
    } else {
        s
    }
}

/// The heap after `value` was added: appended, then sifted up.
pub open spec fn inserted<T>(s: Seq<T>, value: T, rel: spec_fn(T, T) -> bool) -> Seq<T> {
    sift_up(s.push(value), s.len() as int, rel)
}

/// What an extraction yields: the root, or nothing where the heap is empty.
pub open spec fn root_of<T>(s: Seq<T>) -> Option<T> {
    if s.len() == 0 {
        None
    } else {
        Some(s[0])
    }
}

/// `s` without its first element, the last one standing in its place.
pub open spec fn last_to_root<T>(s: Seq<T>) -> Seq<T> {
    s.update(0, s.last()).drop_last()
}

/// The heap after its root was taken: the last element moves to the root,
/// the sequence shrinks by one, and the new root is sifted down. An empty
/// heap stays empty.
pub open spec fn root_removed<T>(s: Seq<T>, rel: spec_fn(T, T) -> bool) -> Seq<T> {
    if s.len() == 0 {
        s
    } else {
        sift_down(last_to_root(s), 0, rel)
    }
}

/// What the heap yields when its root is taken again and again until the heap
/// is empty, in the order in which the elements come out.
pub open spec fn drained<T>(s: Seq<T>, rel: spec_fn(T, T) -> bool) -> Seq<T>
    decreases s.len(),
{
    if s.len() == 0 {
        Seq::empty()
    } else {
        proof {
            lemma_root_removed_permutes(s, rel);
        }
        seq![s[0]] + drained(root_removed(s, rel), rel)
    }
}

/// No element of `s` outranks one that stands before it.
pub open spec fn in_priority_order<T>(s: Seq<T>, rel: spec_fn(T, T) -> bool) -> bool {
    forall|i: int, j: int| 0 <= i < j < s.len() ==> !rel(#[trigger] s[j], #[trigger] s[i])
}

} // verus!
