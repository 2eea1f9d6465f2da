//! Small helper lemmas about sequence views of vectors.

use vstd::prelude::*;

verus! {

/// Pushing onto a vector pushes the element's deep view onto the vector's
/// deep view.
pub proof fn lemma_vec_deep_view_push<T: DeepView>(new: Vec<T>, prev: Vec<T>, x: T)
    requires
        new@ == prev@.push(x),
    ensures
        new.deep_view() == prev.deep_view().push(x.deep_view()),
{
    assert forall|i: int| 0 <= i < new@.len() implies new.deep_view()[i]
        == prev.deep_view().push(x.deep_view())[i] by {
        if i < prev@.len() {
            assert(new@[i] == prev@[i]);
        } else {
            assert(new@[i] == x);
        }
    }
    assert(new.deep_view() =~= prev.deep_view().push(x.deep_view()));
}

/// Inserting into a vector inserts the element's deep view into the
/// vector's deep view at the same position.
pub proof fn lemma_vec_deep_view_insert<T: DeepView>(new: Vec<T>, prev: Vec<T>, p: int, x: T)
    requires
        0 <= p <= prev@.len(),
        new@ == prev@.insert(p, x),
    ensures
        new.deep_view() == prev.deep_view().insert(p, x.deep_view()),
{
    assert forall|i: int| 0 <= i < new@.len() implies new.deep_view()[i]
        == prev.deep_view().insert(p, x.deep_view())[i] by {
        if i < p {
            assert(new@[i] == prev@[i]);
        } else if i == p {
            assert(new@[i] == x);
        } else {
            assert(new@[i] == prev@[i - 1]);
        }
    }
    assert(new.deep_view() =~= prev.deep_view().insert(p, x.deep_view()));
}

} // verus!
