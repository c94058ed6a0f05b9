//! `either::Either`, the sum of two types.

use vstd::prelude::*;
use either::Either;

verus! {

/// `either::Either<L, R>` is a plain enum of two public variants, `Left(L)`
/// and `Right(R)`; the declaration lets verified code build and match it.
#[verifier::external_type_specification]
#[verifier::reject_recursive_types(L)]
#[verifier::reject_recursive_types(R)]
pub struct ExEither<L, R>(Either<L, R>);

/// `Either::left` hands out the value of a `Left` and nothing for a `Right`.
pub assume_specification<L, R>[ Either::<L, R>::left ](e: Either<L, R>) -> (r: Option<L>)
    ensures
        r == (match e {
            Either::Left(l) => Some(l),
            Either::Right(_) => None,
        }),
;

} // verus!
