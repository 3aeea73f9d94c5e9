//! Gathering the parts of a sequence's items into one sequence, and why the
//! result holds the same parts whatever the order of the items.

use vstd::prelude::*;
use vstd::seq_lib::{
    lemma_multiset_commutative, to_multiset_build, to_multiset_contains, to_multiset_remove,
};

verus! {

/// The parts of the items, one item after the other.
pub open spec fn gather<T, R>(items: Seq<T>, part: spec_fn(T) -> Seq<R>) -> Seq<R>
    decreases items.len(),
{
    if items.len() == 0 {
        Seq::empty()
    } else {
        gather(items.drop_last(), part) + part(items.last())
    }
}

/// Gathering from one more item appends the parts of that item.
pub proof fn lemma_gather_push<T, R>(items: Seq<T>, item: T, part: spec_fn(T) -> Seq<R>)
    ensures
        gather(items.push(item), part) == gather(items, part) + part(item),
{
    assert(items.push(item).drop_last() =~= items);
}

/// Taking one item out takes its parts out of what is gathered, counted as
/// a multiset.
proof fn lemma_gather_remove<T, R>(items: Seq<T>, part: spec_fn(T) -> Seq<R>, i: int)
    requires
        0 <= i < items.len(),
    ensures
        gather(items, part).to_multiset() == gather(items.remove(i), part).to_multiset().add(
            part(items[i]).to_multiset(),
        ),
    decreases items.len(),
{
    let rest = items.drop_last();
    lemma_multiset_commutative(gather(rest, part), part(items.last()));
    if i < items.len() - 1 {
        lemma_gather_remove(rest, part, i);
        assert(items.remove(i).drop_last() =~= rest.remove(i));
        lemma_multiset_commutative(gather(rest.remove(i), part), part(items.last()));
    }
}

/// What is gathered does not depend on the order of the items: two
/// sequences of the same items, each as often in the one as in the other,
/// gather the same parts, each as often.
pub proof fn lemma_gather_order_invariant<T, R>(a: Seq<T>, b: Seq<T>, part: spec_fn(T) -> Seq<R>)
    requires
        a.to_multiset() == b.to_multiset(),
    ensures
        gather(a, part).to_multiset() == gather(b, part).to_multiset(),
    decreases a.len(),
{
    a.to_multiset_ensures();
    b.to_multiset_ensures();
    if a.len() > 0 {
        let last = a.last();
        assert(a.drop_last().push(last) =~= a);
        to_multiset_build(a.drop_last(), last);
        to_multiset_contains(b, last);
        let j = choose|j: int| 0 <= j < b.len() && b[j] == last;
        to_multiset_remove(b, j);
        assert(a.drop_last().to_multiset() =~= b.remove(j).to_multiset());
        lemma_gather_order_invariant(a.drop_last(), b.remove(j), part);
        lemma_gather_remove(b, part, j);
        lemma_multiset_commutative(gather(a.drop_last(), part), part(last));
    }
}

} // verus!
