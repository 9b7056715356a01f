//! The library's only sources of randomness, behind contracts that state
//! what holds of every outcome.

use crate::urls::UrlParts;
use vstd::prelude::*;

verus! {

/// Relies on `rand::random_range` over an inclusive range: it panics on an
/// empty range and otherwise returns a value within the range.
#[verifier::external_body]
pub(crate) fn random_in_range(lo: u64, hi: u64) -> (r: u64)
    requires
        lo <= hi,
    ensures
        lo <= r <= hi,
{
    rand::random_range(lo..=hi)
}

/// Relies on `rand::seq::SliceRandom::shuffle`: the slice afterwards is a
/// permutation of the slice before.
#[verifier::external_body]
pub(crate) fn shuffle_urls(urls: &mut Vec<UrlParts>)
    ensures
        final (urls)@.len() == old(urls)@.len(),
        final (urls)@.to_multiset() == old(urls)@.to_multiset(),
{
    rand::seq::SliceRandom::shuffle(urls.as_mut_slice(), &mut rand::rng());
}

/// A uniformly chosen index into a collection of the given length.
pub fn random_index(len: usize) -> (r: usize)
    requires
        len > 0,
    ensures
        r < len,
{
    let i = random_in_range(0, (len - 1) as u64);
    i as usize
}

} // verus!
