//! Histories: what holds of a heap after any run of additions and
//! extractions, whatever their number and order.
use vstd::prelude::*;
use crate::laws::{
    lemma_inserted_ordered, lemma_inserted_permutes, lemma_root_removed_ordered,
    lemma_root_removed_permutes,
};
use crate::model::{heap_ordered, inserted, root_of, root_removed};
use crate::order::strict_weak_order;

verus! {

/// One call on a heap.
pub enum Call<T> {
    /// `add` with this value.
    Add(T),
    /// `next`.
    Extract,
}

/// The heap that the calls leave, made in order on an empty heap.
pub open spec fn after<T>(calls: Seq<Call<T>>, rel: spec_fn(T, T) -> bool) -> Seq<T>
    decreases calls.len(),
{
    if calls.len() == 0 {
        Seq::empty()
    } else {
        let before = after(calls.drop_last(), rel);
        match calls.last() {
            Call::Add(value) => inserted(before, value, rel),
            Call::Extract => root_removed(before, rel),
        }
    }
}

/// How many of the calls are additions.
pub open spec fn additions<T>(calls: Seq<Call<T>>) -> nat
    decreases calls.len(),
{
    if calls.len() == 0 {
        0
    } else {
        match calls.last() {
            Call::Add(_) => additions(calls.drop_last()) + 1,
            Call::Extract => additions(calls.drop_last()),
        }
    }
}

/// How many of the calls are extractions that found an element to take.
pub open spec fn extractions<T>(calls: Seq<Call<T>>, rel: spec_fn(T, T) -> bool) -> nat
    decreases calls.len(),
{
    if calls.len() == 0 {
        0
    } else {
        match calls.last() {
            Call::Add(_) => extractions(calls.drop_last(), rel),
            Call::Extract => if after(calls.drop_last(), rel).len() > 0 {
                extractions(calls.drop_last(), rel) + 1
            } else {
                extractions(calls.drop_last(), rel)
            },
        }
    }
}

/// After any calls the heap is in heap order: no node outranks its parent.
pub proof fn lemma_heap_order_after_any_calls<T>(calls: Seq<Call<T>>, rel: spec_fn(T, T) -> bool)
    requires
        strict_weak_order(rel),
    ensures
        heap_ordered(after(calls, rel), rel),
    decreases calls.len(),
{
    if calls.len() > 0 {
        let before = after(calls.drop_last(), rel);
        lemma_heap_order_after_any_calls(calls.drop_last(), rel);
        match calls.last() {
            Call::Add(value) => lemma_inserted_ordered(before, value, rel),
            Call::Extract => lemma_root_removed_ordered(before, rel),
        }
    }
}

/// After any calls the heap holds as many elements as were added, less those
/// that were taken out.
pub proof fn lemma_len_after_any_calls<T>(calls: Seq<Call<T>>, rel: spec_fn(T, T) -> bool)
    ensures
        after(calls, rel).len() == additions(calls) - extractions(calls, rel),
    decreases calls.len(),
{
    if calls.len() > 0 {
        let before = after(calls.drop_last(), rel);
        lemma_len_after_any_calls(calls.drop_last(), rel);
        match calls.last() {
            Call::Add(value) => lemma_inserted_permutes(before, value, rel),
            Call::Extract => if before.len() > 0 {
                lemma_root_removed_permutes(before, rel)
            },
        }
    }
}

/// `n` extractions in a row.
pub open spec fn extractions_in_a_row<T>(n: nat) -> Seq<Call<T>> {
    Seq::new(n, |i: int| Call::Extract)
}

/// Once the heap is empty it stays empty through any number of extractions,
/// and each of them yields nothing. With no calls before them, the heap is a
/// new one.
pub proof fn lemma_empty_heap_stays_empty<T>(
    calls: Seq<Call<T>>,
    n: nat,
    rel: spec_fn(T, T) -> bool,
)
    requires
        after(calls, rel).len() == 0,
    ensures
        after(calls + extractions_in_a_row(n), rel).len() == 0,
        root_of(after(calls + extractions_in_a_row(n), rel)).is_none(),
    decreases n,
{
    let all = calls + extractions_in_a_row(n);
    if n == 0 {
        assert(all =~= calls);
    } else {
        let fewer = calls + extractions_in_a_row((n - 1) as nat);
        lemma_empty_heap_stays_empty(calls, (n - 1) as nat, rel);
        assert(all.drop_last() =~= fewer);
        assert(all.last() == Call::<T>::Extract);
    }
}

} // verus!
