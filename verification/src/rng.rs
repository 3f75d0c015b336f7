//! The random source. All randomness the library consumes enters through the
//! two wrappers here, so everything downstream of a draw is verified for
//! every value the source can hand back.

use crate::card::Card;
use rand::Rng;
use rand::seq::SliceRandom;
use vstd::prelude::*;

verus! {

/// Relies on rand's `SliceRandom::shuffle`: an in-place Fisher-Yates pass
/// that permutes the slice uniformly at random, neither adding nor dropping
/// elements.
#[verifier::external_body]
pub(crate) fn shuffle_cards(cards: &mut Vec<Card>)
    ensures
        final(cards)@.to_multiset() == old(cards)@.to_multiset(),
        final(cards)@.len() == old(cards)@.len(),
{
    cards.as_mut_slice().shuffle(&mut rand::rng());
}

/// Relies on rand's `Rng::random_range` over `0..bound`: a uniform draw that
/// always lies inside the range, which must not be empty.
#[verifier::external_body]
pub(crate) fn random_below(bound: usize) -> (r: usize)
    requires
        1 <= bound,
    ensures
        r < bound,
{
    rand::rng().random_range(0..bound)
}

} // verus!
