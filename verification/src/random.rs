//! Randomness from the `rand` crate.

use rand::rngs::SmallRng;
use rand::seq::SliceRandom;
use vstd::prelude::*;

use crate::names::names;

verus! {

/// The small fast generator of `rand`.
#[verifier::external_type_specification]
#[verifier::external_body]
pub struct ExSmallRng(SmallRng);

/// `<[String]>::choose_multiple` (`rand::seq::SliceRandom`), collected: `amount` elements
/// (all of them when the pool is smaller) taken at distinct random positions of the
/// pool, in random order. Stated: the length, and that what is taken is part of the
/// pool (as a multiset of names). Which elements are taken depends on the generator.
#[verifier::external_body]
pub(crate) fn choose_multiple(pool: &Vec<String>, rng: &mut SmallRng, amount: usize) -> (taken: Vec<String>)
    ensures
        taken@.len() == (if amount < pool@.len() { amount as int } else { pool@.len() as int }),
        names(taken@).to_multiset().subset_of(names(pool@).to_multiset()),
{
    pool.choose_multiple(rng, amount).cloned().collect()
}

/// `<[String]>::shuffle` (`rand::seq::SliceRandom`): permutes the list in place by
/// swaps at random positions. Stated: the list keeps its length and its cards (as a
/// multiset of names). Their order depends on the generator.
#[verifier::external_body]
pub(crate) fn shuffle(cards: &mut Vec<String>, rng: &mut SmallRng)
    ensures
        final(cards)@.len() == old(cards)@.len(),
        names(final(cards)@).to_multiset() == names(old(cards)@).to_multiset(),
{
    cards.shuffle(rng)
}

} // verus!
