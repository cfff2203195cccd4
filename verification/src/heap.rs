//! The heap itself: a vector whose slot 0 is a sentinel that is never read
//! and whose slots `1 ..= count` hold the elements, the node in slot `i`
//! under the node in slot `i / 2` and over those in slots `2 i` and
//! `2 i + 1`. The element in slot `i + 1` is the one at position `i` of the
//! heap's view.
use vstd::prelude::*;
use crate::laws::{
    lemma_inserted_ordered, lemma_last_to_root_permutes, lemma_root_is_top,
    lemma_root_removed_ordered, lemma_swapped_permutes,
};
use crate::model::{
    heap_ordered, inserted, is_top, last_to_root, left_child, parent, preferred_child,
    right_child, root_of, root_removed, sift_down, sift_up, swapped,
};
use crate::order::{always_callable, ascending, decides, descending, strict_weak_order};
use vstd::std_specs::cmp::{PartialOrdIs, PartialOrdSpec};

verus! {

/// `<[T]>::swap` exchanges the elements at `a` and `b` and leaves the others
/// where they are. It panics on an index out of bounds, which the
/// precondition rules out.
pub assume_specification<V>[ <[V]>::swap ](slice: &mut [V], a: usize, b: usize)
    requires
        a < old(slice)@.len(),
        b < old(slice)@.len(),
    ensures
        final(slice)@ == old(slice)@.update(a as int, old(slice)@[b as int]).update(
            b as int,
            old(slice)@[a as int],
        ),
;

/// A binary heap of `T` whose comparator `F` says of two elements whether the
/// first outranks the second. Its view is the sequence of its elements in
/// storage order, the root first.
pub struct Heap<T, F> where T: Default {
    count: usize,
    items: Vec<T>,
    comparator: F,
}

impl<T, F> View for Heap<T, F> where T: Default, F: Fn(&T, &T) -> bool {
    type V = Seq<T>;

    /// The elements in storage order, the root first.
    closed spec fn view(&self) -> Seq<T> {
        self.items@.skip(1)
    }
}

impl<T, F> Heap<T, F> where T: Default, F: Fn(&T, &T) -> bool {
    /// The storage has its sentinel and one slot for each element, and the
    /// comparator can be called on any two elements.
    pub closed spec fn wf(&self) -> bool {
        &&& self.items@.len() == self.count + 1
        &&& always_callable(self.comparator)
    }

    /// The comparator that the heap was made with.
    pub closed spec fn comparator(&self) -> F {
        self.comparator
    }

    /// The value in slot 0.
    pub closed spec fn sentinel(&self) -> T {
        self.items@[0]
    }

    /// An empty heap that ranks its elements by `comparator`. Slot 0 takes a
    /// default value of `T`.
    pub fn new(comparator: F) -> (heap: Self)
        requires
            always_callable(comparator),
        ensures
            heap.wf(),
            heap@ == Seq::<T>::empty(),
            heap.comparator() == comparator,
            call_ensures(T::default, (), heap.sentinel()),
    {
        let mut items = Vec::new();
        items.push(T::default());
        let heap = Heap { count: 0, items, comparator };
        assert(heap@ =~= Seq::<T>::empty());
        heap
    }

    /// The number of elements.
    pub fn len(&self) -> (n: usize)
        requires
            self.wf(),
        ensures
            n == self@.len(),
    {
        self.count
    }

    /// Whether the heap holds no element.
    pub fn is_empty(&self) -> (empty: bool)
        requires
            self.wf(),
        ensures
            empty == (self@.len() == 0),
    {
        self.len() == 0
    }

    /// Adds `value`: it is appended to the storage and then climbs while the
    /// comparator says that it outranks its parent.
    pub fn add(&mut self, value: T)
        requires
            old(self).wf(),
        ensures
            final(self).wf(),
            final(self).comparator() == old(self).comparator(),
            final(self).sentinel() == old(self).sentinel(),
            final(self)@.len() == old(self)@.len() + 1,
            final(self)@.to_multiset() == old(self)@.to_multiset().insert(value),
            forall|rel: spec_fn(T, T) -> bool|
                #[trigger] decides(old(self).comparator(), rel)
                    ==> final(self)@ == inserted(old(self)@, value, rel),
            forall|rel: spec_fn(T, T) -> bool|
                #[trigger] decides(old(self).comparator(), rel) && strict_weak_order(rel)
                    && heap_ordered(old(self)@, rel)
                    ==> heap_ordered(final(self)@, rel),
    {
        self.items.push(value);
        assert(self.items.len() == self.count + 2);
        self.count += 1;
        let mut idx: usize = self.count;
        proof {
            broadcast use vstd::seq_lib::group_to_multiset_ensures;

            assert(self@ =~= old(self)@.push(value));
        }
        while idx > 1
            invariant
                self.wf(),
                self.comparator() == old(self).comparator(),
                self.sentinel() == old(self).sentinel(),
                self.count == old(self).count + 1,
                1 <= idx <= self.count,
                self@.to_multiset() == old(self)@.to_multiset().insert(value),
                forall|rel: spec_fn(T, T) -> bool|
                    #[trigger] decides(self.comparator(), rel)
                        ==> sift_up(self@, idx - 1, rel) == inserted(old(self)@, value, rel),
            ensures
                forall|rel: spec_fn(T, T) -> bool|
                    #[trigger] decides(self.comparator(), rel)
                        ==> self@ == inserted(old(self)@, value, rel),
            decreases idx,
        {
            let parent_idx = self.parent_idx(idx);
            let ghost before = self@;
            if (self.comparator)(&self.items[idx], &self.items[parent_idx]) {
                self.items.swap(idx, parent_idx);
                proof {
                    assert(self@ =~= swapped(before, idx - 1, parent_idx - 1));
                    lemma_swapped_permutes(before, idx - 1, parent_idx - 1);
                }
                idx = parent_idx;
            } else {
                break;
            }
        }
        proof {
            assert forall|rel: spec_fn(T, T) -> bool|
                #[trigger] decides(old(self).comparator(), rel) && strict_weak_order(rel)
                    && heap_ordered(old(self)@, rel) implies heap_ordered(self@, rel) by {
                lemma_inserted_ordered(old(self)@, value, rel);
            }
        }
    }

    /// Takes the root, the element that nothing in the heap outranks: the last
    /// element moves into its slot and sinks while its preferred child
    /// outranks it. An empty heap yields `None` and stays as it is.
    pub fn next(&mut self) -> (result: Option<T>)
        requires
            old(self).wf(),
        ensures
            final(self).wf(),
            final(self).comparator() == old(self).comparator(),
            final(self).sentinel() == old(self).sentinel(),
            result == root_of(old(self)@),
            old(self)@.len() == 0 ==> final(self)@ == old(self)@,
            old(self)@.len() > 0 ==> final(self)@.len() == old(self)@.len() - 1,
            old(self)@.len() > 0 ==> final(self)@.to_multiset()
                == old(self)@.to_multiset().remove(old(self)@[0]),
            forall|rel: spec_fn(T, T) -> bool|
                #[trigger] decides(old(self).comparator(), rel)
                    ==> final(self)@ == root_removed(old(self)@, rel),
            forall|rel: spec_fn(T, T) -> bool|
                #[trigger] decides(old(self).comparator(), rel) && strict_weak_order(rel)
                    && heap_ordered(old(self)@, rel)
                    ==> is_top(old(self)@, rel) && heap_ordered(final(self)@, rel),
    {
        proof {
            assert forall|rel: spec_fn(T, T) -> bool|
                #[trigger] decides(old(self).comparator(), rel) && strict_weak_order(rel)
                    && heap_ordered(old(self)@, rel) implies is_top(old(self)@, rel)
                && heap_ordered(root_removed(old(self)@, rel), rel) by {
                lemma_root_is_top(old(self)@, rel);
                lemma_root_removed_ordered(old(self)@, rel);
            }
        }
        if self.is_empty() {
            return None;
        }
        let result = self.items.swap_remove(1);
        self.count -= 1;
        let mut idx: usize = 1;
        proof {
            assert(self@ =~= last_to_root(old(self)@));
            lemma_last_to_root_permutes(old(self)@);
        }
        while self.children_present(idx)
            invariant
                self.wf(),
                self.comparator() == old(self).comparator(),
                self.sentinel() == old(self).sentinel(),
                old(self)@.len() > 0,
                self.count == old(self).count - 1,
                1 <= idx,
                self@.to_multiset() == old(self)@.to_multiset().remove(old(self)@[0]),
                forall|rel: spec_fn(T, T) -> bool|
                    #[trigger] decides(self.comparator(), rel)
                        ==> sift_down(self@, idx - 1, rel) == root_removed(old(self)@, rel),
            ensures
                forall|rel: spec_fn(T, T) -> bool|
                    #[trigger] decides(self.comparator(), rel)
                        ==> self@ == root_removed(old(self)@, rel),
            decreases self.count - idx,
        {
            let child_idx = self.smallest_child_idx(idx);
            let ghost before = self@;
            if (self.comparator)(&self.items[child_idx], &self.items[idx]) {
                self.items.swap(idx, child_idx);
                proof {
                    assert(self@ =~= swapped(before, idx - 1, child_idx - 1));
                    lemma_swapped_permutes(before, idx - 1, child_idx - 1);
                }
                idx = child_idx;
            } else {
                break;
            }
        }
        Some(result)
    }

    /// The slot above `idx`.
    fn parent_idx(&self, idx: usize) -> (p: usize)
        ensures
            p == idx / 2,
            idx >= 2 ==> p - 1 == parent(idx - 1),
    {
        idx / 2
    }

    /// Whether the node in slot `idx` has a child, that is a left child. The
    /// test halves the count, since doubling `idx` could overflow.
    fn children_present(&self, idx: usize) -> (present: bool)
        ensures
            present == (2 * idx <= self.count),
    {
        idx <= self.count / 2
    }

    /// The slot of the left child of the node in slot `idx`.
    fn left_child_idx(&self, idx: usize) -> (l: usize)
        requires
            2 * idx <= usize::MAX,
        ensures
            l == 2 * idx,
            idx >= 1 ==> l - 1 == left_child(idx - 1),
    {
        idx * 2
    }

    /// The slot of the right child of the node in slot `idx`.
    fn right_child_idx(&self, idx: usize) -> (r: usize)
        requires
            2 * idx + 1 <= usize::MAX,
        ensures
            r == 2 * idx + 1,
            idx >= 1 ==> r - 1 == right_child(idx - 1),
    {
        self.left_child_idx(idx) + 1
    }

    /// The slot of the child to compare the node in slot `idx` with: the left
    /// child, unless there is a right child that outranks it. The name is
    /// that of the min-heap's case; the choice is the comparator's.
    fn smallest_child_idx(&self, idx: usize) -> (child: usize)
        requires
            self.wf(),
            1 <= idx,
            2 * idx <= self.count,
        ensures
            child == 2 * idx || child == 2 * idx + 1,
            child <= self.count,
            forall|rel: spec_fn(T, T) -> bool|
                #[trigger] decides(self.comparator(), rel)
                    ==> child - 1 == preferred_child(self@, idx - 1, rel),
    {
        let left_idx = self.left_child_idx(idx);
        let right_idx = self.right_child_idx(idx);
        if right_idx <= self.count {
            if (self.comparator)(&self.items[right_idx], &self.items[left_idx]) {
                right_idx
            } else {
                left_idx
            }
        } else {
            left_idx
        }
    }
}

/// The constructors that bring their own comparator stand on `Heap<T, ()>`, so
/// that `Heap::new_min()` and `Heap::new_max()` name them without a comparator
/// type.
impl<T> Heap<T, ()> where T: Default + Ord {
    /// An empty min-heap: the smaller element outranks the larger. The
    /// comparator is known to decide `ascending` where `<` on `T` is known to
    /// go by `T`'s order.
    pub fn new_min() -> (heap: Heap<T, impl Fn(&T, &T) -> bool>)
        ensures
            heap.wf(),
            heap@ == Seq::<T>::empty(),
            call_ensures(T::default, (), heap.sentinel()),
            T::obeys_partial_cmp_spec() ==> decides(heap.comparator(), ascending::<T>()),
    {
        Heap::new(
            |a: &T, b: &T| -> (r: bool)
                ensures
                    T::obeys_partial_cmp_spec() ==> r == a.is_lt(b)
                { a < b },
        )
    }

    /// An empty max-heap: the larger element outranks the smaller. The
    /// comparator is known to decide `descending` where `>` on `T` is known to
    /// go by `T`'s order.
    pub fn new_max() -> (heap: Heap<T, impl Fn(&T, &T) -> bool>)
        ensures
            heap.wf(),
            heap@ == Seq::<T>::empty(),
            call_ensures(T::default, (), heap.sentinel()),
            T::obeys_partial_cmp_spec() ==> decides(heap.comparator(), descending::<T>()),
    {
        Heap::new(
            |a: &T, b: &T| -> (r: bool)
                ensures
                    T::obeys_partial_cmp_spec() ==> r == a.is_gt(b)
                { a > b },
        )
    }
}

/// Makes min-heaps.
pub struct MinHeap;

impl MinHeap {
    /// An empty min-heap, as `Heap::new_min` makes it.
    pub fn new<T>() -> (heap: Heap<T, impl Fn(&T, &T) -> bool>) where T: Default + Ord
        ensures
            heap.wf(),
            heap@ == Seq::<T>::empty(),
            call_ensures(T::default, (), heap.sentinel()),
            T::obeys_partial_cmp_spec() ==> decides(heap.comparator(), ascending::<T>()),
    {
        Heap::new_min()
    }
}

/// Makes max-heaps.
pub struct MaxHeap;

impl MaxHeap {
    /// An empty max-heap, as `Heap::new_max` makes it.
    pub fn new<T>() -> (heap: Heap<T, impl Fn(&T, &T) -> bool>) where T: Default + Ord
        ensures
            heap.wf(),
            heap@ == Seq::<T>::empty(),
            call_ensures(T::default, (), heap.sentinel()),
            T::obeys_partial_cmp_spec() ==> decides(heap.comparator(), descending::<T>()),
    {
        Heap::new_max()
    }
}

} // verus!
