//! When items appear and how often they move.

use vstd::prelude::*;

use crate::modules::item_bounce::BounceClock;
use crate::modules::item_pop::SpawnGate;
use crate::random;

verus! {

/// One item may appear in every bucket of time but the first, as long as fewer than ten are there.
/// A bucket in which there was no room is spent.
pub proof fn lemma_one_item_in_a_bucket(
    fresh: SpawnGate,
    first: &mut SpawnGate,
    again: &mut SpawnGate,
    zero: &mut SpawnGate,
    bucket: u64,
    count: usize,
    later_count: usize,
    outs: (bool, bool, bool),
)
    requires
        call_ensures(SpawnGate::new, (), fresh),
        *old(zero) == fresh,
        call_ensures(SpawnGate::observe, (zero, 0, count), outs.0),
        bucket != 0,
        *old(first) == fresh,
        call_ensures(SpawnGate::observe, (first, bucket, count), outs.1),
        *old(again) == *final(first),
        call_ensures(SpawnGate::observe, (again, bucket, later_count), outs.2),
    ensures
        !outs.0,
        outs.1 <==> count <= 9,
        !outs.2,
        final(again).last == bucket,
{
}

/// The first move is always made; a later one is left out where it comes too soon. Each move counts
/// once, whatever the delay, and neither starts nor ends a run.
pub proof fn lemma_moves_are_counted_once(
    seed: [u8; 32],
    fresh: BounceClock,
    first: &mut BounceClock,
    second: &mut BounceClock,
    too_soon: bool,
    second_too_soon: bool,
    outs: (bool, bool),
    needs: bool,
)
    requires
        call_ensures(BounceClock::from_seed, (seed,), fresh),
        call_ensures(BounceClock::needs_run, (&fresh, false), needs),
        *old(first) == fresh,
        call_ensures(BounceClock::accept, (first, too_soon), outs.0),
        *old(second) == *final(first),
        call_ensures(BounceClock::accept, (second, second_too_soon), outs.1),
    ensures
        needs,
        fresh.accepted_ticks == 0,
        outs.0,
        final(first).accepted_ticks == 1,
        outs.1 <==> !second_too_soon,
        final(second).accepted_ticks == if outs.1 {
            2int
        } else {
            1int
        },
        !final(second).running,
        final(second).generator == fresh.generator,
{
}

/// A run goes on until it is over and draws one of the models; the clock is not touched.
pub proof fn lemma_a_run_draws_one_model(
    begun: &mut BounceClock,
    count: u32,
    model: u32,
    goes_on: bool,
    over: bool,
)
    requires
        count > 0,
        call_ensures(BounceClock::begin_run, (begun, count), model),
        call_ensures(BounceClock::needs_run, (&*final(begun), false), goes_on),
        call_ensures(BounceClock::needs_run, (&*final(begun), true), over),
    ensures
        model < count,
        !goes_on,
        over,
        final(begun).accepted_ticks == old(begun).accepted_ticks,
        final(begun).accepted_before == old(begun).accepted_before,
        ({
            let word = random::words_to_come(old(begun).generator)[0];
            random::picks(count, word) ==> model == random::picked(count, word)
        }),
{
    lemma_first_draw(
        random::words_to_come(old(begun).generator),
        0,
        count,
        model,
        random::words_to_come(final(begun).generator),
    );
}

/// A number that is drawn is told by the first word that picks one of the range.
pub proof fn lemma_first_draw(
    words: Map<nat, u32>,
    low: u32,
    high: u32,
    drawn: u32,
    rest: Map<nat, u32>,
)
    requires
        low < high,
        random::draws(words, low, high, drawn, rest),
    ensures
        random::picks((high - low) as u32, words[0]) ==> drawn == low + random::picked(
            (high - low) as u32,
            words[0],
        ) && rest == random::words_after(words, 1),
{
    let place = choose|place: nat|
        {
            &&& #[trigger] random::picks_first(words, (high - low) as u32, place)
            &&& drawn == low + random::picked((high - low) as u32, words[place])
            &&& rest == random::words_after(words, place + 1)
        };
    if random::picks((high - low) as u32, words[0]) && place > 0 {
        assert(!random::picks((high - low) as u32, words[0nat]));
    }
}

/// A new clock stands still and has counted nothing, whatever its seed.
pub proof fn lemma_a_new_clock_stands_still(drawn: BounceClock, seed: [u8; 32], seeded: BounceClock)
    requires
        call_ensures(BounceClock::new, (), drawn),
        call_ensures(BounceClock::from_seed, (seed,), seeded),
    ensures
        drawn.accepted_ticks == 0 && !drawn.accepted_before && !drawn.running,
        seeded.accepted_ticks == 0 && !seeded.accepted_before && !seeded.running,
{
}

} // verus!
