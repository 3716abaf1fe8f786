//! The walkers and their footprints.

use vstd::prelude::*;

use crate::modules::footprint;
use crate::modules::footprint::{
    Footprint, FootprintState, Stamp, WalkerPhase, WalkerStep,
};

verus! {

/// A new tick takes away exactly the footprints that are older than 99 ticks; every other stays,
/// even one of a later tick. A tick that was seen changes nothing. The walkers are not touched.
pub proof fn lemma_old_footprints_vanish(
    begun: &mut FootprintState,
    again: &mut FootprintState,
    tick: u64,
    began: bool,
    began_again: bool,
    footprint: Footprint,
)
    requires
        old(begun).wf(),
        old(begun).last_tick != Some(tick),
        call_ensures(FootprintState::begin, (begun, tick), began),
        *old(again) == *final(begun),
        call_ensures(FootprintState::begin, (again, tick), began_again),
    ensures
        began,
        final(begun).footprints@.contains(footprint) <==> old(begun).footprints@.contains(footprint)
            && footprint.birth_tick + 99 >= tick,
        final(begun).walkers@ == old(begun).walkers@,
        final(begun).last_tick == Some(tick),
        !began_again,
        final(again).footprints@ == final(begun).footprints@,
        final(again).walkers@ == final(begun).walkers@,
        (forall|i: int|
            0 <= i < old(begun).footprints@.len() ==> (#[trigger] old(begun).footprints@[i]).birth_tick
                + 99 >= tick) ==> final(begun).footprints@ == old(begun).footprints@,
{
    let before = old(begun).footprints@;
    let lasts = |footprint: Footprint|
        footprint::age(footprint.birth_tick, tick) <= footprint::FOOTPRINT_AGE;
    assert(final(begun).footprints@ == before.filter(lasts));
    broadcast use vstd::seq_lib::group_filter_ensures;

    if before.contains(footprint) && footprint.birth_tick + 99 >= tick {
        let i = choose|i: int| 0 <= i < before.len() && before[i] == footprint;
        assert(lasts(before[i]));
        lemma_filtered_contains(before, lasts, i);
    }
    if before.filter(lasts).contains(footprint) {
        let i = choose|i: int|
            0 <= i < before.filter(lasts).len() && before.filter(lasts)[i] == footprint;
        assert(lasts(before.filter(lasts)[i]));
        lemma_contains_filtered(before, lasts, i);
    }
    if forall|i: int|
        0 <= i < before.len() ==> (#[trigger] before[i]).birth_tick + 99 >= tick {
        assert forall|i: int| 0 <= i < before.len() implies lasts(#[trigger] before[i]) by {
            assert(before[i].birth_tick + 99 >= tick);
        }
        lemma_nothing_filtered(before, lasts);
    }
}

proof fn lemma_filtered_contains(
    before: Seq<Footprint>,
    lasts: spec_fn(Footprint) -> bool,
    place: int,
)
    requires
        0 <= place < before.len(),
        lasts(before[place]),
    ensures
        before.filter(lasts).contains(before[place]),
    decreases before.len(),
{
    reveal(Seq::filter);
    let rest = before.drop_last();
    if place < rest.len() {
        lemma_filtered_contains(rest, lasts, place);
        let i = choose|i: int|
            0 <= i < rest.filter(lasts).len() && rest.filter(lasts)[i] == before[place];
        assert(before.filter(lasts)[i] == before[place]);
    } else {
        assert(before.filter(lasts)[rest.filter(lasts).len() as int] == before[place]);
    }
}

proof fn lemma_contains_filtered(
    before: Seq<Footprint>,
    lasts: spec_fn(Footprint) -> bool,
    place: int,
)
    requires
        0 <= place < before.filter(lasts).len(),
    ensures
        before.contains(before.filter(lasts)[place]),
    decreases before.len(),
{
    reveal(Seq::filter);
    if before.len() > 0 {
        let rest = before.drop_last();
        if place < rest.filter(lasts).len() {
            lemma_contains_filtered(rest, lasts, place);
            let i = choose|i: int|
                0 <= i < rest.len() && rest[i] == rest.filter(lasts)[place];
            assert(before[i] == rest[i]);
        } else {
            assert(before[before.len() - 1] == before.filter(lasts)[place]);
        }
    }
}

proof fn lemma_nothing_filtered(before: Seq<Footprint>, lasts: spec_fn(Footprint) -> bool)
    requires
        forall|i: int| 0 <= i < before.len() ==> lasts(#[trigger] before[i]),
    ensures
        before.filter(lasts) == before,
    decreases before.len(),
{
    reveal(Seq::filter);
    if before.len() > 0 {
        lemma_nothing_filtered(before.drop_last(), lasts);
        assert(before.drop_last().push(before.last()) == before);
    }
}

/// A walker treads at most every seven ticks, with one foot after the other; each print is the last
/// of all, with the walker, the tick and the stamp it was given. Between two treads nothing is left.
pub proof fn lemma_a_walker_treads_every_seven_ticks(
    first: &mut FootprintState,
    second: &mut FootprintState,
    walker: usize,
    tick: u64,
    later: u64,
    stamp: Stamp,
    other: Stamp,
    left: bool,
    left_later: bool,
    feet: (bool, bool, bool),
)
    requires
        old(first).wf(),
        walker < 4,
        old(first).settled(tick),
        call_ensures(FootprintState::next_foot_is_left, (&*old(first), walker), feet.0),
        call_ensures(FootprintState::tread, (first, walker, tick, stamp), left),
        call_ensures(FootprintState::next_foot_is_left, (&*final(first), walker), feet.1),
        *old(second) == *final(first),
        tick <= later,
        old(second).settled(later),
        call_ensures(FootprintState::tread, (second, walker, later, other), left_later),
        call_ensures(FootprintState::next_foot_is_left, (&*final(second), walker), feet.2),
    ensures
        left <==> old(first).walkers@[walker as int].last_footprint_tick + 7 <= tick,
        left ==> final(first).footprints@ == old(first).footprints@.push(
            Footprint { walker, birth_tick: tick, stamp },
        ),
        left ==> final(first).walkers@[walker as int].last_footprint_tick == tick,
        !left ==> final(first).footprints@ == old(first).footprints@ && final(first).walkers@
            == old(first).walkers@,
        left ==> feet.1 == !feet.0,
        !left ==> feet.1 == feet.0,
        left ==> (left_later <==> later >= tick + 7),
        left_later ==> feet.2 == !feet.1,
        forall|i: int|
            0 <= i < 4 && i != walker ==> #[trigger] final(first).walkers@[i] == old(first).walkers@[i],
        final(first).walkers@[walker as int].phase == old(first).walkers@[walker as int].phase,
        feet.0 == !old(first).walkers@[walker as int].left_foot,
{
}

/// A run of so many ticks comes one step further with every tick and stops on its last. The pause
/// that follows lasts from 20 to 39 ticks and then asks for a run. No other walker is touched, and no
/// footprint.
pub proof fn lemma_a_run_and_a_pause(
    state: &mut FootprintState,
    walker: usize,
    step: WalkerStep,
)
    requires
        old(state).wf(),
        walker < 4,
        call_ensures(FootprintState::advance_walker, (state, walker), step),
    ensures
        ({
            let before = old(state).walkers@[walker as int].phase;
            let after = final(state).walkers@[walker as int].phase;
            match before {
                WalkerPhase::Moving { progress, duration } => {
                    &&& progress + 1 < duration ==> step == (WalkerStep::Moved {
                        progress: (progress + 1) as u64,
                    }) && after == (WalkerPhase::Moving {
                        progress: (progress + 1) as u64,
                        duration,
                    })
                    &&& progress + 1 >= duration ==> step is Stopped && after is Paused && 20
                        <= after->remaining <= 39
                },
                WalkerPhase::Paused { remaining } => {
                    &&& remaining >= 2 ==> step is Waited && after == (WalkerPhase::Paused {
                        remaining: (remaining - 1) as u64,
                    })
                    &&& remaining <= 1 ==> step is NeedsRun && after == before
                },
            }
        }),
        forall|i: int|
            0 <= i < 4 && i != walker ==> #[trigger] final(state).walkers@[i] == old(state).walkers@[i],
        final(state).walkers@[walker as int].left_foot == old(state).walkers@[walker as int].left_foot,
        final(state).walkers@[walker as int].last_footprint_tick == old(state).walkers@[walker as int].last_footprint_tick,
        final(state).footprints@ == old(state).footprints@,
        final(state).last_tick == old(state).last_tick,
{
}

/// A run starts from its beginning with the duration that was drawn, from 100 to 299 ticks, and its
/// first tick takes one step. Only that walker sets off.
pub proof fn lemma_a_run_starts_from_its_beginning(
    started: &mut FootprintState,
    moved: &mut FootprintState,
    walker: usize,
    duration: u64,
    step: WalkerStep,
)
    requires
        old(started).wf(),
        walker < 4,
        call_ensures(footprint::draw_duration, (), duration),
        call_ensures(FootprintState::start_run, (started, walker, duration), ()),
        *old(moved) == *final(started),
        call_ensures(FootprintState::advance_walker, (moved, walker), step),
    ensures
        100 <= duration <= 299,
        final(started).walkers@[walker as int].phase == (WalkerPhase::Moving {
            progress: 0,
            duration,
        }),
        step == (WalkerStep::Moved { progress: 1 }),
        forall|i: int|
            0 <= i < 4 && i != walker ==> #[trigger] final(started).walkers@[i] == old(started).walkers@[i],
        final(started).walkers@[walker as int].left_foot == old(started).walkers@[walker as int].left_foot,
        final(started).footprints@ == old(started).footprints@,
{
}

/// At the start four walkers rest without a print, have seen the tick zero, ask for a run at once and
/// begin with the left foot.
pub proof fn lemma_walkers_start_at_rest(
    fresh: FootprintState,
    moved: &mut FootprintState,
    walker: usize,
    step: WalkerStep,
    left: bool,
)
    requires
        walker < 4,
        call_ensures(FootprintState::new, (), fresh),
        call_ensures(FootprintState::next_foot_is_left, (&fresh, walker), left),
        *old(moved) == fresh,
        call_ensures(FootprintState::advance_walker, (moved, walker), step),
    ensures
        fresh.wf(),
        fresh.walkers@.len() == 4,
        fresh.footprints@.len() == 0,
        fresh.last_tick == Some(0u64),
        fresh.walkers@[walker as int].last_footprint_tick == 0,
        step is NeedsRun,
        left,
{
}

} // verus!
