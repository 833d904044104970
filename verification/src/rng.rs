use rand::seq::SliceRandom;
use rand::Rng;
use vstd::prelude::*;

verus! {

/// Draw one uniformly random value below `bound`.
///
/// Relies on `rand::Rng::gen_range` over the range `0..bound`, which returns a
/// sample of that range and panics only when the range is empty; the bound is
/// therefore required to be positive.  Nothing is promised about which value
/// comes back beyond the range itself.
#[verifier::external_body]
pub(crate) fn rand_below(bound: u128) -> (r: u128)
    requires
        bound >= 1,
    ensures
        r < bound,
{
    rand::thread_rng().gen_range(0..bound)
}

/// Rearrange the elements of a vector into a uniformly random order.
///
/// Relies on `rand::seq::SliceRandom::shuffle`, a Fisher-Yates shuffle that
/// only swaps elements in place: the result holds exactly the elements the
/// vector held before, as a multiset.
#[verifier::external_body]
pub(crate) fn shuffle_vec<T>(v: &mut Vec<T>)
    ensures
        final(v)@.len() == old(v)@.len(),
        final(v)@.to_multiset() == old(v)@.to_multiset(),
{
    v.shuffle(&mut rand::thread_rng());
}

} // verus!
