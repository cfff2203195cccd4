//! Comparators and the relations they decide.
use vstd::prelude::*;
use vstd::laws_cmp::{
    obeys_cmp, obeys_cmp_ord, obeys_cmp_partial_ord, obeys_partial_cmp_spec_properties,
};
use vstd::laws_eq::obeys_eq_spec_properties;
use vstd::std_specs::cmp::{OrdSpec, PartialOrdIs, PartialOrdSpec};

verus! {

/// The comparator accepts every pair of elements.
pub open spec fn always_callable<T, F: Fn(&T, &T) -> bool>(f: F) -> bool {
    forall|a: T, b: T| #[trigger] call_requires(f, (&a, &b))
}

/// Whatever the comparator answers on a pair is what `rel` says of that pair:
/// the comparator computes the relation `rel`, "the first outranks the second".
pub open spec fn decides<T, F: Fn(&T, &T) -> bool>(f: F, rel: spec_fn(T, T) -> bool) -> bool {
    forall|a: T, b: T, r: bool| #[trigger] call_ensures(f, (&a, &b), r) ==> r == rel(a, b)
}

/// No two elements outrank each other.
pub open spec fn asymmetric<T>(rel: spec_fn(T, T) -> bool) -> bool {
    forall|a: T, b: T| #[trigger] rel(a, b) ==> !rel(b, a)
}

/// "Does not outrank" is transitive.
pub open spec fn negatively_transitive<T>(rel: spec_fn(T, T) -> bool) -> bool {
    forall|a: T, b: T, c: T| !#[trigger] rel(a, b) && !#[trigger] rel(b, c) ==> !rel(a, c)
}

/// The relations under which a heap keeps its promises: a strict order in
/// which elements that do not outrank each other may tie.
pub open spec fn strict_weak_order<T>(rel: spec_fn(T, T) -> bool) -> bool {
    asymmetric(rel) && negatively_transitive(rel)
}

/// The relation of a min-heap: the smaller element outranks the larger.
pub open spec fn ascending<T: PartialOrd>() -> spec_fn(T, T) -> bool {
    |a: T, b: T| a.is_lt(&b)
}

/// The relation of a max-heap: the larger element outranks the smaller.
pub open spec fn descending<T: PartialOrd>() -> spec_fn(T, T) -> bool {
    |a: T, b: T| a.is_gt(&b)
}

/// Where `T`'s comparisons go by a total order, "is smaller than" is a
/// strict weak order.
pub proof fn lemma_ascending_is_strict_weak_order<T: Ord>()
    requires
        obeys_cmp::<T>(),
    ensures
        strict_weak_order(ascending::<T>()),
{
    reveal(obeys_partial_cmp_spec_properties);
    reveal(obeys_cmp_partial_ord);
    reveal(obeys_cmp_ord);
    reveal(obeys_eq_spec_properties);
    let rel = ascending::<T>();
    assert forall|a: T, b: T| #[trigger] rel(a, b) implies !rel(b, a) by {
        assert(b.partial_cmp_spec(&a) == Some(b.cmp_spec(&a)));
    }
    assert forall|a: T, b: T, c: T| !#[trigger] rel(a, b) && !#[trigger] rel(b, c) implies !rel(
        a,
        c,
    ) by {
        assert(a.partial_cmp_spec(&b) == Some(a.cmp_spec(&b)));
        assert(b.partial_cmp_spec(&c) == Some(b.cmp_spec(&c)));
        assert(a.partial_cmp_spec(&c) == Some(a.cmp_spec(&c)));
        assert(b.partial_cmp_spec(&a) == Some(b.cmp_spec(&a)));
        assert(c.partial_cmp_spec(&b) == Some(c.cmp_spec(&b)));
    }
}

/// Where `T`'s comparisons go by a total order, "is larger than" is a strict
/// weak order.
pub proof fn lemma_descending_is_strict_weak_order<T: Ord>()
    requires
        obeys_cmp::<T>(),
    ensures
        strict_weak_order(descending::<T>()),
{
    reveal(obeys_partial_cmp_spec_properties);
    reveal(obeys_cmp_partial_ord);
    reveal(obeys_cmp_ord);
    reveal(obeys_eq_spec_properties);
    let rel = descending::<T>();
    assert forall|a: T, b: T| #[trigger] rel(a, b) implies !rel(b, a) by {
        assert(b.partial_cmp_spec(&a) == Some(b.cmp_spec(&a)));
    }
    assert forall|a: T, b: T, c: T| !#[trigger] rel(a, b) && !#[trigger] rel(b, c) implies !rel(
        a,
        c,
    ) by {
        assert(a.partial_cmp_spec(&b) == Some(a.cmp_spec(&b)));
        assert(b.partial_cmp_spec(&c) == Some(b.cmp_spec(&c)));
        assert(a.partial_cmp_spec(&c) == Some(a.cmp_spec(&c)));
        assert(b.partial_cmp_spec(&a) == Some(b.cmp_spec(&a)));
        assert(c.partial_cmp_spec(&b) == Some(c.cmp_spec(&b)));
    }
}

} // verus!
