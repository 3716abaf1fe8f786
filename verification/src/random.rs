//! Draws from the thread-local generator of the `rand` crate and from seeded HC-128 generators.

use rand::{Rng, RngCore, SeedableRng};
use vstd::prelude::*;

verus! {

/// Calls `rand::Rng::gen_range(0, bound)` on `rand::thread_rng()`. The half-open
/// range makes every draw smaller than `bound`; nothing is claimed of which draw
/// comes. `gen_range` panics on an empty range, so `bound` is positive.
#[verifier::external_body]
pub(crate) fn below(bound: usize) -> (drawn: usize)
    requires
        bound > 0,
    ensures
        drawn < bound,
{
    rand::thread_rng().gen_range(0, bound)
}

/// Calls `rand::RngCore::fill_bytes` on `rand::thread_rng()`. It replaces the bytes; nothing is
/// claimed of those that come.
#[verifier::external_body]
pub(crate) fn fill(bytes: &mut Vec<u8>)
    ensures
        final(bytes)@.len() == old(bytes)@.len(),
{
    rand::thread_rng().fill_bytes(bytes);
}

/// A seed for an HC-128 generator.
pub(crate) fn seed() -> (seed: [u8; 32])
{
    let mut drawn: Vec<u8> = vec![0u8; 32];
    fill(&mut drawn);
    let mut seed: [u8; 32] = [0u8; 32];
    let mut index: usize = 0;
    while index < 32
        invariant
            index <= 32 == drawn@.len(),
        decreases 32 - index,
    {
        seed[index] = drawn[index];
        index = index + 1;
    }
    seed
}

#[verifier::external_type_specification]
#[verifier::external_body]
pub struct ExHc128Rng(rand_hc::Hc128Rng);

/// The words that an HC-128 generator gives out from now on, by their place.
pub uninterp spec fn words_to_come(generator: rand_hc::Hc128Rng) -> Map<nat, u32>;

/// The words that an HC-128 generator with this seed gives out.
pub uninterp spec fn hc128_words(seed: Seq<u8>) -> Map<nat, u32>;

/// What is left of a sequence of words once some are taken from its front.
pub open spec fn words_after(words: Map<nat, u32>, taken: nat) -> Map<nat, u32> {
    Map::new(|place: nat| true, |place: nat| words[place + taken])
}

/// Calls `rand::SeedableRng::from_seed` of `rand_hc::Hc128Rng`. The words to come depend on the
/// seed alone.
#[verifier::external_body]
pub(crate) fn seeded(seed: [u8; 32]) -> (generator: rand_hc::Hc128Rng)
    ensures
        words_to_come(generator) == hc128_words(seed@),
{
    rand_hc::Hc128Rng::from_seed(seed)
}

/// Calls `rand::RngCore::next_u32` of `rand_hc::Hc128Rng`. It gives out the first of the words to
/// come and leaves the others to come.
#[verifier::external_body]
pub(crate) fn next_word(generator: &mut rand_hc::Hc128Rng) -> (word: u32)
    ensures
        word == words_to_come(*old(generator))[0],
        words_to_come(*final(generator)) == words_after(words_to_come(*old(generator)), 1),
{
    generator.next_u32()
}

/// A positive number, doubled as long as it stays below two to the thirty-second.
pub open spec fn zone(number: nat) -> nat
    decreases 0x1_0000_0000 - number,
{
    if number == 0 || number >= 0x8000_0000 {
        number
    } else {
        zone(2 * number)
    }
}

/// Whether a word picks one of `count` choices. The words that do not would make some choices
/// likelier than others.
pub open spec fn picks(count: u32, word: u32) -> bool {
    (count * word) % 0x1_0000_0000 < zone(count as nat)
}

/// The choice that a word picks.
pub open spec fn picked(count: u32, word: u32) -> u32 {
    ((count * word) / 0x1_0000_0000) as u32
}

/// Whether the word at `place` is the first that picks one of `count` choices.
pub open spec fn picks_first(words: Map<nat, u32>, count: u32, place: nat) -> bool {
    picks(count, words[place]) && forall|before: nat|
        before < place ==> !picks(count, #[trigger] words[before])
}

/// Whether a number of a range is drawn from these words and leaves `rest` of them. The first word
/// that picks one of as many choices as the range has numbers decides.
pub open spec fn draws(
    words: Map<nat, u32>,
    low: u32,
    high: u32,
    drawn: u32,
    rest: Map<nat, u32>,
) -> bool {
    exists|place: nat|
        {
            &&& #[trigger] picks_first(words, (high - low) as u32, place)
            &&& drawn == low + picked((high - low) as u32, words[place])
            &&& rest == words_after(words, place + 1)
        }
}

/// Calls `rand::Rng::gen_range(low, high)` on an HC-128 generator. It takes words until one picks a
/// choice, as many as there are numbers in the range, and adds that choice to `low`. `gen_range`
/// panics on an empty range, so `low` is smaller than `high`.
#[verifier::external_body]
pub(crate) fn between(generator: &mut rand_hc::Hc128Rng, low: u32, high: u32) -> (drawn: u32)
    requires
        low < high,
    ensures
        low <= drawn < high,
        draws(
            words_to_come(*old(generator)),
            low,
            high,
            drawn,
            words_to_come(*final(generator)),
        ),
{
    generator.gen_range(low, high)
}

} // verus!
