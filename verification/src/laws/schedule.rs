//! Time, and when the wallpaper switches to another module.

use vstd::prelude::*;
use vstd::arithmetic::div_mod;

use crate::laws::options;
use crate::options::ModuleSelection;
use crate::schedule;
use crate::schedule::IntervalTooLarge;
use crate::time;
use crate::time::{Duration, Instant, LAST_INSTANT_NANOS};

verus! {

/// A second is a thousand milliseconds and a thousand million nanoseconds.
pub proof fn lemma_units_of_time(
    count: u64,
    thousands: u64,
    whole: Duration,
    parts: Duration,
)
    requires
        thousands == 1_000 * count,
        call_ensures(time::seconds, (count,), whole),
        call_ensures(time::milliseconds, (thousands,), parts),
    ensures
        whole == parts,
        whole == 1_000_000_000 * count,
{
}

/// Going a span of time ahead and measuring back gives the span again, as long as the clock can
/// name the point; measured the other way there is nothing.
pub proof fn lemma_a_span_is_measured_as_it_was_added(
    start: Instant,
    span: Duration,
    later: Option<Instant>,
    back: Duration,
    ahead: Duration,
)
    requires
        call_ensures(Instant::checked_add, (start, span), later),
        later is Some ==> call_ensures(
            Instant::saturating_duration_since,
            (later->0, start),
            back,
        ),
        later is Some ==> call_ensures(
            Instant::saturating_duration_since,
            (start, later->0),
            ahead,
        ),
    ensures
        later is Some <==> start.nanos + span <= 9_223_372_036_854_775_807_999_999_999,
        later is Some ==> back == span && ahead == 0 && later->0.nanos == start.nanos + span,
{
}

/// So many whole periods fit into a span of time: they do not overrun it, and one more would. A
/// count beyond 64 bits is cut off.
pub proof fn lemma_whole_periods_fit(elapsed: Duration, period: Duration, count: u64)
    requires
        period > 0,
        call_ensures(time::whole_periods, (elapsed, period), count),
    ensures
        count * period <= elapsed,
        count < u64::MAX ==> elapsed < (count + 1) * period,
{
    let whole = elapsed as int / period as int;
    div_mod::lemma_fundamental_div_mod(elapsed as int, period as int);
    div_mod::lemma_mod_bound(elapsed as int, period as int);
    assert(period * whole == whole * period) by (nonlinear_arith);
    assert((whole + 1) * period == whole * period + period) by (nonlinear_arith);
    assert(count <= whole);
    assert(count * period <= whole * period) by (nonlinear_arith)
        requires
            count <= whole,
            period > 0,
    ;
}

/// The first switch is one interval after the start. Without an interval there is none, and an
/// interval that the clock cannot follow is refused.
pub proof fn lemma_the_first_switch_is_one_interval_away(
    started_at: Instant,
    interval: Duration,
    without: Result<Option<Instant>, IntervalTooLarge>,
    with: Result<Option<Instant>, IntervalTooLarge>,
)
    requires
        call_ensures(
            schedule::initial_module_deadline,
            (started_at, None::<Duration>),
            without,
        ),
        call_ensures(schedule::initial_module_deadline, (started_at, Some(interval)), with),
    ensures
        without is Ok && without->Ok_0 is None,
        with is Ok <==> started_at.nanos + interval <= LAST_INSTANT_NANOS,
        with is Ok ==> with->Ok_0 is Some && with->Ok_0->0.nanos == started_at.nanos + interval,
{
}

/// The next switch lies ahead and at most one interval away, and it keeps the grid that the first
/// one began: missed switches are neither made up for nor do they move the later ones. Where more are missed
/// than 32 bits can count, the next switch is one interval away.
pub proof fn lemma_switches_keep_their_grid(
    deadline: Instant,
    interval: Duration,
    now: Instant,
    advanced: Option<Instant>,
    again: Option<Instant>,
)
    requires
        interval > 0,
        call_ensures(schedule::advance_periodic_deadline, (deadline, interval, now), advanced),
        advanced is Some ==> call_ensures(
            schedule::advance_periodic_deadline,
            (advanced->0, interval, now),
            again,
        ),
    ensures
        deadline.nanos > now.nanos ==> advanced == Some(deadline),
        deadline.nanos <= now.nanos && advanced is Some ==> now.nanos < advanced->0.nanos
            <= now.nanos + interval,
        now.nanos + interval <= LAST_INSTANT_NANOS ==> advanced is Some,
        deadline.nanos <= now.nanos && now.nanos + interval <= LAST_INSTANT_NANOS && (now.nanos
            - deadline.nanos) as int / interval as int + 1 <= 0xffff_ffff ==> (advanced->0.nanos
            - deadline.nanos) as int % interval as int == 0,
        advanced is Some ==> again == advanced,
        deadline.nanos <= now.nanos && now.nanos + interval <= LAST_INSTANT_NANOS && (now.nanos
            - deadline.nanos) as int / interval as int + 1 > 0xffff_ffff ==> advanced->0.nanos
            == now.nanos + interval,
{
    if deadline.nanos <= now.nanos {
        schedule::lemma_deadlines_keep_their_grid(deadline, interval, now);
        let periods = schedule::elapsed_periods(deadline, interval, now);
        div_mod::lemma_mod_multiples_basic(periods, interval as int);
        assert(interval * periods == periods * interval) by (nonlinear_arith);
        let passed = (now.nanos - deadline.nanos) as int;
        div_mod::lemma_fundamental_div_mod(passed, interval as int);
        div_mod::lemma_mod_bound(passed, interval as int);
        assert(interval * periods == interval * (periods - 1) + interval) by (nonlinear_arith);
        assert(0 <= deadline.nanos + interval * periods <= now.nanos + interval);
    }
}

/// A switch never shows the module again that it leaves, and each of the twelve others has exactly
/// one place among those that are drawn from.
pub proof fn lemma_every_other_module_has_one_place(
    current: u8,
    slot: u8,
    other: u8,
    number: u8,
    other_number: u8,
    wanted: u8,
    drawn_from: ModuleSelection,
    drawn: ModuleSelection,
)
    requires
        current <= 12,
        slot < 12,
        other < 12,
        call_ensures(schedule::module_id_excluding, (current, slot), number),
        call_ensures(schedule::module_id_excluding, (current, other), other_number),
        call_ensures(schedule::random_module_excluding, (drawn_from,), drawn),
        wanted <= 12,
        wanted != current,
    ensures
        number <= 12 && number != current,
        number == other_number ==> slot == other,
        slot < other ==> number < other_number,
        wanted < current && slot == wanted ==> number == wanted,
        wanted > current && slot == wanted - 1 ==> number == wanted,
        drawn != drawn_from,
        exists|id: u8| id <= 12 && #[trigger] options::module_in_help(id) == Some(drawn),
{
    let place = choose|i: int|
        0 <= i < crate::options::module_table().len() && crate::options::module_table()[i] == drawn;
    assert(options::module_in_help(place as u8) == Some(drawn));
}

/// The nearer of two deadlines counts, in whichever order they are given; a missing one does not.
pub proof fn lemma_the_nearer_deadline_counts(
    first: Option<Instant>,
    second: Option<Instant>,
    earliest: Option<Instant>,
    swapped: Option<Instant>,
)
    requires
        call_ensures(schedule::earliest_deadline, (first, second), earliest),
        call_ensures(schedule::earliest_deadline, (second, first), swapped),
    ensures
        earliest == swapped,
        first is Some ==> earliest is Some && earliest->0.nanos <= first->0.nanos,
        second is Some ==> earliest is Some && earliest->0.nanos <= second->0.nanos,
        earliest is Some ==> earliest == first || earliest == second,
{
}

/// A switch is due exactly if an interval runs, its deadline has come and there is something to draw
/// on; it then tells both.
pub proof fn lemma_when_a_switch_is_due(
    interval: Option<Duration>,
    next_switch: Option<Instant>,
    now: Instant,
    usable: bool,
    due: Option<(Duration, Instant)>,
)
    requires
        call_ensures(schedule::switch_due, (interval, next_switch, now, usable), due),
    ensures
        due is Some <==> interval is Some && next_switch is Some && next_switch->0.nanos
            <= now.nanos && usable,
        due is Some ==> Some((due->0).0) == interval && Some((due->0).1) == next_switch,
{
}

} // verus!
