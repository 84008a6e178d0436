//! Small lemmas about deep views of vectors, shared by the routing and
//! channel proofs.

use vstd::prelude::*;

verus! {

/// Pushing an element onto a vector pushes its deep view.
pub proof fn lemma_deep_view_push<T: DeepView>(v1: Vec<T>, v2: Vec<T>, x: T)
    requires
        v2@ == v1@.push(x),
    ensures
        v2.deep_view() == v1.deep_view().push(x.deep_view()),
{
    assert(v2.deep_view() =~= v1.deep_view().push(x.deep_view()));
}

/// Vectors with equal views have equal deep views.
pub proof fn lemma_deep_view_congruent<T: DeepView>(v1: Vec<T>, v2: Vec<T>)
    requires
        v1@ == v2@,
    ensures
        v1.deep_view() == v2.deep_view(),
{
}

/// An empty vector has an empty deep view.
pub proof fn lemma_deep_view_empty<T: DeepView>(v: Vec<T>)
    requires
        v@.len() == 0,
    ensures
        v.deep_view() == Seq::<T::V>::empty(),
{
    assert(v.deep_view() =~= Seq::<T::V>::empty());
}

/// Updating one element of a vector updates its deep view.
pub proof fn lemma_deep_view_update<T: DeepView>(v1: Vec<T>, v2: Vec<T>, i: int, x: T)
    requires
        0 <= i < v1@.len(),
        v2@ == v1@.update(i, x),
    ensures
        v2.deep_view() == v1.deep_view().update(i, x.deep_view()),
{
    assert(v2.deep_view() =~= v1.deep_view().update(i, x.deep_view()));
}

/// Removing the front element of a vector drops the front of its deep
/// view.
pub proof fn lemma_deep_view_remove_front<T: DeepView>(v1: Vec<T>, v2: Vec<T>)
    requires
        v1@.len() > 0,
        v2@ == v1@.remove(0),
    ensures
        v2.deep_view() == v1.deep_view().drop_first(),
{
    assert(v2@ =~= v1@.drop_first());
    assert(v2.deep_view() =~= v1.deep_view().drop_first());
}

/// Concatenating vectors concatenates their deep views.
pub proof fn lemma_deep_view_concat<T: DeepView>(v1: Vec<T>, v2: Vec<T>, v3: Vec<T>)
    requires
        v3@ == v1@ + v2@,
    ensures
        v3.deep_view() == v1.deep_view() + v2.deep_view(),
{
    assert(v3.deep_view() =~= v1.deep_view() + v2.deep_view());
}

} // verus!
