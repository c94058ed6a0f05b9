//! A short list of elements kept in an `arrayvec::ArrayVec`, which holds
//! its items in place and has room for no more than its array type says.

use vstd::prelude::*;
use arrayvec::ArrayVec;
use crate::syntax::green::GreenElement;

verus! {

/// Up to four elements that an edit is about to put into a node. The
/// items are held in an `ArrayVec<[GreenElement; 4]>`.
#[verifier::external_body]
pub struct Insertion {
    items: ArrayVec<[GreenElement; 4]>,
}

/// The elements that an insertion holds, in order.
pub uninterp spec fn insertion_items(b: Insertion) -> Seq<GreenElement>;

/// The number of elements that an insertion has room for.
pub open spec fn insertion_capacity() -> nat {
    4
}

/// `ArrayVec::new`: a list that holds nothing.
#[verifier::external_body]
pub(crate) fn insertion_new() -> (b: Insertion)
    ensures
        insertion_items(b) == Seq::<GreenElement>::empty(),
{
    Insertion { items: ArrayVec::new() }
}

/// `ArrayVec::push`: the list with `element` at its end. The call is for a
/// list that is not full.
#[verifier::external_body]
pub(crate) fn insertion_push(b: &mut Insertion, element: GreenElement)
    requires
        insertion_items(*old(b)).len() < insertion_capacity(),
    ensures
        insertion_items(*final(b)) == insertion_items(*old(b)).push(element),
{
    b.items.push(element)
}

/// `ArrayVec::insert`: the list with `element` at `index` and what stood
/// there and after it moved up by one. The call is for a list that is not
/// full and an index that is not past its end.
#[verifier::external_body]
pub(crate) fn insertion_insert(b: &mut Insertion, index: usize, element: GreenElement)
    requires
        insertion_items(*old(b)).len() < insertion_capacity(),
        index <= insertion_items(*old(b)).len(),
    ensures
        insertion_items(*final(b)) == insertion_items(*old(b)).insert(index as int, element),
{
    b.items.insert(index, element)
}

/// `ArrayVec::pop`: the last element is taken off the list and returned;
/// an empty list stays as it is and nothing is returned.
#[verifier::external_body]
pub(crate) fn insertion_pop(b: &mut Insertion) -> (r: Option<GreenElement>)
    ensures
        old(b).spec_len() == 0 ==> r is None && insertion_items(*final(b)) == insertion_items(
            *old(b),
        ),
        old(b).spec_len() > 0 ==> r == Some(insertion_items(*old(b)).last()) && insertion_items(
            *final(b),
        ) == insertion_items(*old(b)).drop_last(),
{
    b.items.pop()
}

/// `ArrayVec::into_iter`: the elements of the list, in order.
#[verifier::external_body]
pub(crate) fn insertion_into_vec(b: Insertion) -> (r: Vec<GreenElement>)
    ensures
        r@ == insertion_items(b),
{
    b.items.into_iter().collect()
}

impl Insertion {
    /// The number of elements that the insertion holds.
    pub open spec fn spec_len(&self) -> nat {
        insertion_items(*self).len()
    }
}

} // verus!
