//! Mathematical views of sequences and options, element by element, and values
//! that a specification leaves open.

use vstd::prelude::*;

verus! {

/// The views of the elements of `s`, in order.
pub open spec fn views<T: View>(s: Seq<T>) -> Seq<T::V> {
    s.map_values(|t: T| t@)
}

/// The view of the value inside `o`, if there is one.
pub open spec fn opt_view<T: View>(o: Option<T>) -> Option<T::V> {
    match o {
        Some(t) => Some(t@),
        None => None,
    }
}

/// Some fixed value for each `s`, of which nothing is known.
pub open spec fn left_open<S, T>(s: S) -> T {
    arbitrary::<spec_fn(S) -> T>()(s)
}

/// Viewing commutes with appending one element.
pub broadcast proof fn lemma_views_push<T: View>(s: Seq<T>, t: T)
    ensures
        #[trigger] views(s.push(t)) == views(s).push(t@),
{
    assert(views(s.push(t)) =~= views(s).push(t@));
}

} // verus!
