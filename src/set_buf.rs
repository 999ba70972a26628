//! The sorted-set buffer of `sdset`, through which callers hand over matches
//! that they have already sorted.

use vstd::prelude::*;
use sdset::SetBuf;
use crate::order::Match;

verus! {

#[verifier::external_type_specification]
#[verifier::external_body]
#[verifier::reject_recursive_types(T)]
pub struct ExSetBuf<T>(SetBuf<T>);

/// The matches that a set buffer holds, in its order.
pub uninterp spec fn set_buf_items(s: SetBuf<Match>) -> Seq<Match>;

/// Relies on `sdset::SetBuf::new_unchecked`: it keeps the vector as it is,
/// without sorting or checking it.
#[verifier::external_body]
pub(crate) fn set_buf_unchecked(v: Vec<Match>) -> (r: SetBuf<Match>)
    ensures
        set_buf_items(r) == v@,
{
    SetBuf::new_unchecked(v)
}

/// Relies on `sdset::SetBuf::into_vec`: it hands back the vector that the
/// buffer holds.
#[verifier::external_body]
pub(crate) fn set_buf_into_vec(s: SetBuf<Match>) -> (r: Vec<Match>)
    ensures
        r@ == set_buf_items(s),
{
    s.into_vec()
}

} // verus!
