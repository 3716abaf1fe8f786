//! When the wallpaper switches to another module.

use vstd::prelude::*;

use crate::options;
use crate::options::{ModuleSelection, MODULE_COUNT};
use crate::random;
use crate::time::{Duration, Instant, LAST_INSTANT_NANOS};

verus! {

/// The clock cannot name the end of the first interval.
#[derive(Clone, Copy, Debug, PartialEq, Eq, Structural)]
pub struct IntervalTooLarge;

impl IntervalTooLarge {
    pub fn message(self) -> (message: &'static str)
        ensures
            message@ == "--interval is too large to schedule"@,
    {
        "--interval is too large to schedule"
    }
}

pub fn initial_module_deadline(started_at: Instant, interval: Option<Duration>) -> (deadline:
    Result<Option<Instant>, IntervalTooLarge>)
    ensures
        deadline == match interval {
            None => Ok(None),
            Some(interval) => match started_at.plus(interval) {
                Some(deadline) => Ok(Some(deadline)),
                None => Err(IntervalTooLarge),
            },
        },
{
    match interval {
        None => Ok(None),
        Some(interval) => match started_at.checked_add(interval) {
            Some(deadline) => Ok(Some(deadline)),
            None => Err(IntervalTooLarge),
        },
    }
}

pub open spec fn other_module(current: int, slot: int) -> int {
    if slot >= current {
        slot + 1
    } else {
        slot
    }
}

/// The module in the given slot of the list of modules without the current one.
pub fn module_id_excluding(current: u8, random_slot: u8) -> (module_id: u8)
    requires
        current < MODULE_COUNT,
        random_slot < MODULE_COUNT - 1,
    ensures
        module_id == other_module(current as int, random_slot as int),
{
    if random_slot >= current {
        random_slot + 1
    } else {
        random_slot
    }
}

/// The slots stand for every module but the current one, each for exactly one.
pub proof fn lemma_slots_cover_the_other_modules(current: int)
    requires
        0 <= current < MODULE_COUNT,
    ensures
        forall|slot: int|
            0 <= slot < MODULE_COUNT - 1 ==> {
                let module_id = #[trigger] other_module(current, slot);
                0 <= module_id < MODULE_COUNT && module_id != current
            },
        forall|first: int, second: int|
            #[trigger] other_module(current, first) == #[trigger] other_module(current, second)
                ==> first == second,
        forall|module_id: int|
            0 <= module_id < MODULE_COUNT && module_id != current ==> {
                let slot = #[trigger] slot_of(current, module_id);
                0 <= slot < MODULE_COUNT - 1 && other_module(current, slot) == module_id
            },
{
}

/// The slot that stands for a module other than the current one.
pub open spec fn slot_of(current: int, module_id: int) -> int {
    if module_id > current {
        module_id - 1
    } else {
        module_id
    }
}

/// Draws a module other than the current one.
pub fn random_module_excluding(current: ModuleSelection) -> (module: ModuleSelection)
    ensures
        module != current,
        options::module_table().contains(module),
{
    let random_slot: usize = random::below(MODULE_COUNT as usize - 1);
    let current_id: u8 = current.id();
    let module_id: u8 = module_id_excluding(current_id, random_slot as u8);
    proof {
        assert(options::module_table()[module_id as int] != current) by {
            if options::module_table()[module_id as int] == current {
                options::lemma_module_numbers_are_unique(module_id as int, current_id as int);
            }
        }
        assert(options::module_table().contains(options::module_table()[module_id as int]));
    }
    match ModuleSelection::from_id(module_id) {
        Some(module) => module,
        None => current,
    }
}

/// How many intervals lie between a deadline that has passed and the next one ahead of `now`.
pub open spec fn elapsed_periods(deadline: Instant, interval: Duration, now: Instant) -> int {
    (now.nanos - deadline.nanos) as int / interval as int + 1
}

/// The next deadline on the grid that the first one began, or one whole interval from now where
/// the grid cannot be followed.
pub open spec fn advanced_deadline(deadline: Instant, interval: Duration, now: Instant) -> Option<
    Instant,
> {
    let periods = elapsed_periods(deadline, interval, now);
    if deadline.nanos > now.nanos {
        Some(deadline)
    } else if periods <= u32::MAX && deadline.nanos + interval * periods <= LAST_INSTANT_NANOS {
        Some(Instant { nanos: (deadline.nanos + interval * periods) as u128 })
    } else {
        now.plus(interval)
    }
}

pub fn advance_periodic_deadline(deadline: Instant, interval: Duration, now: Instant) -> (advanced:
    Option<Instant>)
    requires
        interval > 0,
    ensures
        advanced == advanced_deadline(deadline, interval, now),
{
    if deadline.nanos > now.nanos {
        return Some(deadline);
    }
    let missed: u128 = now.saturating_duration_since(deadline) / interval;
    if missed < u32::MAX as u128 {
        let periods: u128 = missed + 1;
        proof {
            assert(periods == elapsed_periods(deadline, interval, now));
        }
        if let Some(elapsed) = interval.checked_mul(periods) {
            if let Some(next) = deadline.checked_add(elapsed) {
                return Some(next);
            }
        }
    }
    now.checked_add(interval)
}

/// The next deadline lies ahead. On the grid it is a whole number of intervals after the one
/// that passed, and at most one interval away: missed ones are neither made up for nor do they
/// shift the grid.
pub proof fn lemma_deadlines_keep_their_grid(deadline: Instant, interval: Duration, now: Instant)
    requires
        interval > 0,
        deadline.nanos <= now.nanos,
    ensures
        advanced_deadline(deadline, interval, now) matches Some(next) ==> {
            &&& next.nanos > now.nanos
            &&& next.nanos <= now.nanos + interval
        },
        ({
            let periods = elapsed_periods(deadline, interval, now);
            periods <= u32::MAX && now.nanos + interval <= LAST_INSTANT_NANOS ==> advanced_deadline(
                deadline,
                interval,
                now,
            ) == Some(Instant { nanos: (deadline.nanos + interval * periods) as u128 })
        }),
{
    let passed = (now.nanos - deadline.nanos) as int;
    let missed = passed / interval as int;
    vstd::arithmetic::div_mod::lemma_fundamental_div_mod(passed, interval as int);
    vstd::arithmetic::div_mod::lemma_mod_bound(passed, interval as int);
    assert(interval * (missed + 1) == interval * missed + interval) by (nonlinear_arith);
}

pub fn earliest_deadline(first: Option<Instant>, second: Option<Instant>) -> (earliest: Option<
    Instant,
>)
    ensures
        earliest == earliest_of(first, second),
{
    match (first, second) {
        (Some(first), Some(second)) => if second.nanos < first.nanos {
            Some(second)
        } else {
            Some(first)
        },
        (Some(deadline), None) => Some(deadline),
        (None, Some(deadline)) => Some(deadline),
        (None, None) => None,
    }
}

pub open spec fn earliest_of(first: Option<Instant>, second: Option<Instant>) -> Option<Instant> {
    match (first, second) {
        (Some(first), Some(second)) => Some(
            Instant {
                nanos: if first.nanos <= second.nanos {
                    first.nanos
                } else {
                    second.nanos
                },
            },
        ),
        (Some(deadline), None) => Some(deadline),
        (None, Some(deadline)) => Some(deadline),
        (None, None) => None,
    }
}

/// Whether it is time to switch: an interval runs, its deadline has come, and there is a surface
/// to draw the next module on.
pub fn switch_due(
    interval: Option<Duration>,
    next_switch: Option<Instant>,
    now: Instant,
    surfaces_usable: bool,
) -> (due: Option<(Duration, Instant)>)
    ensures
        due == match (interval, next_switch) {
            (Some(interval), Some(deadline)) if now.nanos >= deadline.nanos && surfaces_usable => Some(
                (interval, deadline),
            ),
            _ => None,
        },
{
    match (interval, next_switch) {
        (Some(interval), Some(deadline)) => if now.nanos >= deadline.nanos && surfaces_usable {
            Some((interval, deadline))
        } else {
            None
        },
        _ => None,
    }
}

} // verus!
