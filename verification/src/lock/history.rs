//! What holds of every history of calls that a lock can live through.

use vstd::prelude::*;

use crate::lock::state;
use crate::lock::state::{
    AttemptId, AuthDecision, LockView, ALL_TORCHES_MASK, DISSOLVE_DURATION, ESC_FLASH_STEPS,
    ESC_FLASH_STEP_DURATION, IDLE_CLEAR_DURATION,
};
use crate::time::{Instant, LAST_INSTANT_NANOS};

verus! {

/// One call of a method that can change a lock.
pub enum LockEvent {
    CompositorLocked,
    Edit { now: Instant, choice: int },
    Cancel { now: Instant },
    BeginAuthentication { now: Instant },
    AuthenticationResult { attempt: AttemptId, decision: AuthDecision, now: Instant },
    Tick { now: Instant },
    PrepareUnlock { now: Instant, all_outputs_presented: bool },
    ConsumeUnlockGate,
    UnlockSyncCompleted,
    CompositorFinished,
    EnterFatal,
}

pub open spec fn step(lock: LockView, event: LockEvent) -> LockView {
    match event {
        LockEvent::CompositorLocked => lock.compositor_locked(),
        LockEvent::Edit { now, choice } => lock.edited(now, choice),
        LockEvent::Cancel { now } => lock.cancelled(now),
        LockEvent::BeginAuthentication { now } => lock.authentication_begun(now),
        LockEvent::AuthenticationResult { attempt, decision, now } => lock.answered(
            attempt,
            decision,
            now,
        ),
        LockEvent::Tick { now } => lock.ticked(now),
        LockEvent::PrepareUnlock { now, all_outputs_presented } => lock.unlock_prepared(
            now,
            all_outputs_presented,
        ),
        LockEvent::ConsumeUnlockGate => lock.gate_consumed(),
        LockEvent::UnlockSyncCompleted => lock.sync_completed(),
        LockEvent::CompositorFinished => lock.compositor_finished(),
        LockEvent::EnterFatal => lock.fatal(),
    }
}

/// The lock after the given calls, made in order on a new lock.
pub open spec fn run(events: Seq<LockEvent>) -> LockView
    decreases events.len(),
{
    if events.len() == 0 {
        LockView::initial()
    } else {
        step(run(events.drop_last()), events.last())
    }
}

/// Whether every edit in the history chose one of the flips that were valid for it.
pub open spec fn choices_valid(events: Seq<LockEvent>) -> bool {
    forall|i: int|
        0 <= i < events.len() ==> (#[trigger] events[i] matches LockEvent::Edit { choice, .. }
            ==> 0 <= choice < state::valid_flips(run(events.take(i)).torch_mask).len())
}

pub open spec fn locked_at(events: Seq<LockEvent>, i: int) -> bool {
    0 <= i < events.len() && events[i] is CompositorLocked
}

/// Whether call `i` started the given attempt.
pub open spec fn begun_at(events: Seq<LockEvent>, i: int, attempt: AttemptId) -> bool {
    &&& 0 <= i < events.len()
    &&& events[i] is BeginAuthentication
    &&& run(events.take(i)).can_edit()
    &&& run(events.take(i)).next_attempt == attempt.0
    &&& attempt.0 < u64::MAX
}

/// Whether call `i` reported, at `at`, that the attempt still awaited had succeeded.
pub open spec fn granted_at(
    events: Seq<LockEvent>,
    i: int,
    attempt: AttemptId,
    at: Instant,
) -> bool {
    &&& 0 <= i < events.len()
    &&& events[i] == LockEvent::AuthenticationResult {
        attempt,
        decision: AuthDecision::Authenticated,
        now: at,
    }
    &&& run(events.take(i)).awaits(attempt)
}

/// Whether call `i` reported the end of a dissolve that every output had presented.
pub open spec fn presented_at(events: Seq<LockEvent>, i: int) -> bool {
    &&& 0 <= i < events.len()
    &&& events[i] matches LockEvent::PrepareUnlock { now, all_outputs_presented }
    &&& all_outputs_presented
    &&& run(events.take(i)).dissolve_done(now)
}

/// Whether the history holds, in this order, the compositor's confirmation, the start of an
/// attempt, the success of that same attempt, and the presentation on every output of a frame
/// drawn at least a whole dissolve after the success.
pub open spec fn unlock_earned(events: Seq<LockEvent>) -> bool {
    exists|i: int, j: int, k: int, m: int, attempt: AttemptId, at: Instant|
        {
            &&& i < j < k < m
            &&& #[trigger] locked_at(events, i)
            &&& #[trigger] begun_at(events, j, attempt)
            &&& #[trigger] granted_at(events, k, attempt, at)
            &&& #[trigger] presented_at(events, m)
            &&& events[m]->PrepareUnlock_now.since(at) >= DISSOLVE_DURATION
        }
}

/// A lock that a history reaches is well formed.
pub proof fn lemma_reachable_locks_are_well_formed(events: Seq<LockEvent>)
    requires
        choices_valid(events),
    ensures
        run(events).wf(),
    decreases events.len(),
{
    if events.len() > 0 {
        let before = events.drop_last();
        assert forall|i: int| 0 <= i < before.len() implies (#[trigger] before[i] matches LockEvent::Edit {
            choice,
            ..
        } ==> 0 <= choice < state::valid_flips(run(before.take(i)).torch_mask).len()) by {
            assert(before.take(i) == events.take(i));
            assert(before[i] == events[i]);
        }
        lemma_reachable_locks_are_well_formed(before);
        assert(events.take(events.len() - 1) == before);
        assert(events[events.len() - 1] == events.last());
        state::lemma_valid_flips(run(before).torch_mask);
    }
}

proof fn lemma_confirmed(events: Seq<LockEvent>)
    ensures
        run(events).compositor_confirmed ==> exists|i: int| locked_at(events, i),
    decreases events.len(),
{
    if events.len() > 0 {
        let before = events.drop_last();
        lemma_confirmed(before);
        if run(before).compositor_confirmed {
            let i = choose|i: int| locked_at(before, i);
            assert(locked_at(events, i));
        } else if run(events).compositor_confirmed {
            assert(locked_at(events, events.len() - 1));
        }
    }
}

proof fn lemma_begun(events: Seq<LockEvent>, attempt: AttemptId)
    requires
        run(events).awaits(attempt),
    ensures
        exists|i: int| begun_at(events, i, attempt),
    decreases events.len(),
{
    let before = events.drop_last();
    if run(before).awaits(attempt) {
        lemma_begun(before, attempt);
        let i = choose|i: int| begun_at(before, i, attempt);
        assert(before.take(i) == events.take(i));
        assert(begun_at(events, i, attempt));
    } else {
        assert(events.take(events.len() - 1) == before);
        assert(begun_at(events, events.len() - 1, attempt));
    }
}

proof fn lemma_granted(events: Seq<LockEvent>)
    requires
        run(events).phase is Authenticated,
    ensures
        exists|i: int|
            granted_at(
                events,
                i,
                run(events).phase->Authenticated_attempt,
                run(events).phase->Authenticated_started_at,
            ),
    decreases events.len(),
{
    let before = events.drop_last();
    let attempt = run(events).phase->Authenticated_attempt;
    let at = run(events).phase->Authenticated_started_at;
    if run(before).phase is Authenticated {
        lemma_granted(before);
        let i = choose|i: int| granted_at(before, i, attempt, at);
        assert(before.take(i) == events.take(i));
        assert(granted_at(events, i, attempt, at));
    } else {
        assert(events.take(events.len() - 1) == before);
        assert(granted_at(events, events.len() - 1, attempt, at));
    }
}

proof fn lemma_presented(events: Seq<LockEvent>)
    requires
        run(events).phase is UnlockRequested || run(events).unlock_called,
    ensures
        exists|i: int| presented_at(events, i),
    decreases events.len(),
{
    let before = events.drop_last();
    if run(before).phase is UnlockRequested || run(before).unlock_called {
        lemma_presented(before);
        let i = choose|i: int| presented_at(before, i);
        assert(before.take(i) == events.take(i));
        assert(presented_at(events, i));
    } else {
        assert(events.take(events.len() - 1) == before);
        assert(presented_at(events, events.len() - 1));
    }
}

/// The session is unlocked only on a history that earned it.
pub proof fn lemma_only_an_earned_unlock_is_granted(events: Seq<LockEvent>)
    requires
        run(events).gate_open() || run(events).unlock_called,
    ensures
        unlock_earned(events),
{
    lemma_presented(events);
    let m = choose|m: int| presented_at(events, m);
    let until_presented = events.take(m);
    lemma_granted(until_presented);
    let attempt = run(until_presented).phase->Authenticated_attempt;
    let at = run(until_presented).phase->Authenticated_started_at;
    let k = choose|k: int| granted_at(until_presented, k, attempt, at);
    let until_granted = events.take(k);
    assert(until_presented.take(k) == until_granted);
    assert(granted_at(events, k, attempt, at));
    lemma_begun(until_granted, attempt);
    let j = choose|j: int| begun_at(until_granted, j, attempt);
    let until_begun = events.take(j);
    assert(until_granted.take(j) == until_begun);
    assert(begun_at(events, j, attempt));
    lemma_confirmed(until_begun);
    let i = choose|i: int| locked_at(until_begun, i);
    assert(locked_at(events, i));
}

proof fn lemma_unlock_called_stays(events: Seq<LockEvent>, i: int)
    requires
        0 <= i <= events.len(),
        run(events.take(i)).unlock_called,
    ensures
        run(events).unlock_called,
    decreases events.len() - i,
{
    if i < events.len() {
        assert(events.take(i + 1).drop_last() == events.take(i));
        lemma_unlock_called_stays(events, i + 1);
    } else {
        assert(events.take(i) == events);
    }
}

/// Once an unlock has been taken, there is never another.
pub proof fn lemma_an_unlock_is_granted_at_most_once(events: Seq<LockEvent>, i: int)
    requires
        0 <= i < events.len(),
        events[i] is ConsumeUnlockGate,
        run(events.take(i)).gate_open(),
    ensures
        !run(events).gate_open(),
{
    assert(events.take(i + 1).drop_last() == events.take(i));
    assert(events.take(i + 1).last() == events[i]);
    lemma_unlock_called_stays(events, i + 1);
}

/// A lock that has failed, or that the compositor has ended, never unlocks again; if
/// the compositor had confirmed the lock, it stays failed.
pub proof fn lemma_failed_locks_stay_closed(events: Seq<LockEvent>, i: int)
    requires
        0 <= i <= events.len(),
        run(events.take(i)).phase is Fatal || run(events.take(i)).phase is Finished,
    ensures
        !run(events).gate_open(),
        run(events).phase is Fatal || run(events).phase is Finished,
        run(events.take(i)).phase is Fatal && run(events.take(i)).compositor_confirmed ==> run(
            events,
        ).phase is Fatal && run(events).compositor_confirmed,
    decreases events.len() - i,
{
    if i < events.len() {
        assert(events.take(i + 1).drop_last() == events.take(i));
        lemma_failed_locks_stay_closed(events, i + 1);
    } else {
        assert(events.take(i) == events);
    }
}

proof fn lemma_next_attempt_grows(events: Seq<LockEvent>, i: int)
    requires
        0 <= i <= events.len(),
    ensures
        run(events.take(i)).next_attempt <= run(events).next_attempt,
    decreases events.len() - i,
{
    if i < events.len() {
        assert(events.take(i + 1).drop_last() == events.take(i));
        lemma_next_attempt_grows(events, i + 1);
    } else {
        assert(events.take(i) == events);
    }
}

/// No attempt is ever named twice, so an answer to an earlier attempt leaves a lock that
/// awaits a later one as it is.
pub proof fn lemma_late_answers_are_ignored(
    events: Seq<LockEvent>,
    i: int,
    earlier: AttemptId,
    later: AttemptId,
    decision: AuthDecision,
    now: Instant,
)
    requires
        begun_at(events, i, earlier),
        begun_at(events, events.len() - 1, later),
        i < events.len() - 1,
    ensures
        earlier.0 < later.0,
        run(events).awaits(later),
        run(events).answered(earlier, decision, now) == run(events),
{
    let before = events.drop_last();
    assert(events.take(events.len() - 1) == before);
    assert(events.take(i + 1).drop_last() == events.take(i));
    assert(events.take(i + 1).last() == events[i]);
    assert(before.take(i + 1) == events.take(i + 1));
    lemma_next_attempt_grows(before, i + 1);
}

/// Input is editable only after the compositor has confirmed the lock.
pub proof fn lemma_editing_follows_the_confirmed_lock(events: Seq<LockEvent>)
    requires
        run(events).can_edit(),
    ensures
        exists|i: int| locked_at(events, i),
{
    lemma_confirmed(events);
}

/// A denied attempt closes input for one second, then two, four and eight, and for eight
/// seconds ever after; the wait over, the torches come back lit and input is open.
pub proof fn lemma_denials_back_off(lock: LockView, attempt: AttemptId, now: Instant, later: Instant)
    requires
        lock.wf(),
        lock.awaits(attempt),
        now.nanos + 8_000_000_000 <= LAST_INSTANT_NANOS,
    ensures
        state::backoff(1) == 1_000_000_000,
        forall|failures: u8|
            #![trigger state::backoff(failures)]
            1 <= failures < 4 ==> state::backoff((failures + 1) as u8) == 2 * state::backoff(failures),
        forall|failures: u8| failures >= 4 ==> #[trigger] state::backoff(failures) == 8_000_000_000,
        ({
            let denied = lock.answered(attempt, AuthDecision::Denied, now);
            let wait = state::backoff(state::one_more_failure(lock.failures));
            let after = denied.ticked(later);
            &&& denied.phase is AuthFailed
            &&& !denied.can_edit()
            &&& later.nanos < now.nanos + wait ==> after == denied
            &&& later.nanos >= now.nanos + wait ==> {
                &&& after.can_edit()
                &&& after.torch_visible
                &&& after.torch_mask == ALL_TORCHES_MASK
                &&& after.last_input_at == Some(Instant { nanos: (now.nanos + wait) as u128 })
            }
        }),
{
}

/// A cancelled entry freezes input for four steps of the torch sequence, lit, dark, lit and
/// dark; input and the idle period start again at the exact end of the fourth.
pub proof fn lemma_cancel_flashes_twice(lock: LockView, start: Instant, now: Instant)
    requires
        lock.wf(),
        lock.can_edit(),
        start.nanos <= now.nanos,
        start.nanos + ESC_FLASH_STEPS * ESC_FLASH_STEP_DURATION <= LAST_INSTANT_NANOS,
        now.nanos < start.nanos + ESC_FLASH_STEPS * ESC_FLASH_STEP_DURATION + IDLE_CLEAR_DURATION,
    ensures
        ({
            let elapsed = (now.nanos - start.nanos) as int;
            let after = lock.cancelled(start).ticked(now);
            let end = ESC_FLASH_STEPS * ESC_FLASH_STEP_DURATION;
            &&& after.phase is Idle
            &&& after.torch_visible
            &&& elapsed < end ==> {
                &&& !after.can_edit()
                &&& after.torch_mask == state::flash_mask(elapsed / ESC_FLASH_STEP_DURATION as int)
            }
            &&& elapsed >= end ==> {
                &&& after.can_edit()
                &&& after.torch_mask == ALL_TORCHES_MASK
                &&& after.last_input_at == Some(Instant { nanos: (start.nanos + end) as u128 })
            }
        }),
{
}

/// The flash depends on the time alone, not on how often it was looked at.
pub proof fn lemma_flash_does_not_drift(lock: LockView, early: Instant, late: Instant)
    requires
        lock.wf(),
        early.nanos <= late.nanos,
        late.nanos <= LAST_INSTANT_NANOS - ESC_FLASH_STEPS * ESC_FLASH_STEP_DURATION,
    ensures
        lock.flashed(early).flashed(late) == lock.flashed(late),
{
    if let Some(flash) = lock.esc_flash {
        let at = flash.next_step_at.nanos as int;
        let step = ESC_FLASH_STEP_DURATION as int;
        let left = ESC_FLASH_STEPS - flash.step;
        if early.nanos >= at {
            let due_early = (early.nanos - at) / step + 1;
            let due_late = (late.nanos - at) / step + 1;
            assert(due_early <= due_late);
            assert(state::flash_room(flash.next_step_at) >= due_late + 3);
            if due_early < left {
                let seen = state::flash_after(flash, due_early);
                assert(seen.next_step_at.nanos == at + due_early * step);
                assert(lock.flashed(early).esc_flash == Some(seen));
                if late.nanos >= seen.next_step_at.nanos {
                    lemma_later_steps(lock, late, due_early, due_late);
                } else {
                    assert(due_late == due_early);
                    assert(lock.flashed(early).flashed(late) == lock.flashed(early));
                }
            }
        }
    }
}

#[verifier::spinoff_prover]
#[verifier::rlimit(60)]
proof fn lemma_later_steps(lock: LockView, late: Instant, due_early: int, due_late: int)
    requires
        lock.wf(),
        lock.esc_flash is Some,
        late.nanos <= LAST_INSTANT_NANOS - ESC_FLASH_STEPS * ESC_FLASH_STEP_DURATION,
        1 <= due_early < ESC_FLASH_STEPS - lock.esc_flash->0.step,
        lock.esc_flash->0.next_step_at.nanos + due_early * ESC_FLASH_STEP_DURATION <= late.nanos,
        due_late == (late.nanos - lock.esc_flash->0.next_step_at.nanos) as int
            / ESC_FLASH_STEP_DURATION as int + 1,
    ensures
        (LockView {
            torch_mask: state::flash_mask(lock.esc_flash->0.step + due_early),
            esc_flash: Some(state::flash_after(lock.esc_flash->0, due_early)),
            ..lock.torch_changes(due_early)
        }).flashed(late) == lock.flashed(late),
{
    let flash = lock.esc_flash->0;
    let at = flash.next_step_at.nanos as int;
    let seen = state::flash_after(flash, due_early);
    let left = ESC_FLASH_STEPS - flash.step;
    let mid = LockView {
        torch_mask: state::flash_mask(flash.step + due_early),
        esc_flash: Some(seen),
        ..lock.torch_changes(due_early)
    };
    let due = (late.nanos - seen.next_step_at.nanos) as int / ESC_FLASH_STEP_DURATION as int + 1;
    assert(due == due_late - due_early);
    assert(state::flash_room(flash.next_step_at) >= due_late + 3);
    assert(state::flash_room(seen.next_step_at) >= due + 3);
    assert(seen.step == flash.step + due_early);
    let id = lock.torch_state_id as int;
    if due < left - due_early {
        assert(state::flash_after(seen, due) == state::flash_after(flash, due_late));
        assert(state::wrapped(state::wrapped(id + due_early) + due) == state::wrapped(id + due_late));
        assert(mid.flashed(late) == lock.flashed(late));
    } else {
        let rest = left - due_early;
        assert(state::flash_after(seen, rest - 1).next_step_at == state::flash_after(flash, left - 1).next_step_at);
        assert(state::wrapped(state::wrapped(id + due_early) + rest) == state::wrapped(id + left));
        assert(mid.flashed(late) == lock.flashed(late));
    }
}

} // verus!
