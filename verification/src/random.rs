//! Random draws, through `rand` with the thread-local generator. Nothing is
//! known of a draw beyond its range.
use rand::seq::SliceRandom;
use rand::Rng;
use vstd::prelude::*;

verus! {

/// `Rng::gen_range(lo..hi)` on `rand::thread_rng()`: some value in
/// `lo..hi`; the range must not be empty, as `gen_range` panics on an empty
/// one.
#[verifier::external_body]
pub(crate) fn random_in_range(lo: u64, hi: u64) -> (r: u64)
    requires
        lo < hi,
    ensures
        lo <= r < hi,
{
    rand::thread_rng().gen_range(lo..hi)
}

/// `SliceRandom::choose` on `rand::thread_rng()`, given back as the position
/// of the chosen element: `None` exactly for an empty slice, else some
/// position inside it.
#[verifier::external_body]
pub(crate) fn choose_position<T>(items: &[T]) -> (r: Option<usize>)
    ensures
        r is None <==> items@.len() == 0,
        r matches Some(i) ==> i < items@.len(),
{
    let chosen = items.choose(&mut rand::thread_rng())?;
    items.iter().position(|x| std::ptr::eq(x, chosen))
}

} // verus!
