//! The lock: what opens and closes its input, what its deadlines mean, and what unlocks it.

use vstd::prelude::*;

use crate::lock::state;
use crate::lock::state::{AttemptId, AuthDecision, LockState, LockVisual};
use crate::time::{Instant, LAST_INSTANT_NANOS};

verus! {

/// The point of the clock that lies so many nanoseconds after another.
pub open spec fn later_by(at: Instant, nanos: int) -> Instant {
    Instant { nanos: (at.nanos + nanos) as u128 }
}

/// A new lock shows nothing and takes no input. The first confirmation of the compositor opens the
/// input, still without showing anything; a further one changes nothing.
pub proof fn lemma_the_confirmation_opens_the_input(
    fresh: LockState,
    first: &mut LockState,
    second: &mut LockState,
    entered: bool,
    again: bool,
    editable_before: bool,
    editable_after: bool,
    shown_before: LockVisual,
    shown_after: LockVisual,
    now: Instant,
)
    requires
        call_ensures(LockState::new, (), fresh),
        call_ensures(LockState::can_edit, (&fresh,), editable_before),
        call_ensures(LockState::visual, (&fresh, now), shown_before),
        *old(first) == fresh,
        call_ensures(LockState::compositor_locked, (first,), entered),
        call_ensures(LockState::can_edit, (&*final(first),), editable_after),
        call_ensures(LockState::visual, (&*final(first), now), shown_after),
        *old(second) == *final(first),
        call_ensures(LockState::compositor_locked, (second,), again),
    ensures
        !editable_before,
        shown_before is Hidden,
        entered,
        editable_after,
        shown_after is Hidden,
        !again,
        final(second)@ == final(first)@,
{
}

/// Every accepted edit restarts the idle period: for ten seconds from it, whatever edits came
/// before, no tick clears the password or hides the torches, and the first tick after them does
/// both and leaves the input open. The deadline says so.
pub proof fn lemma_every_edit_restarts_the_idle_period(
    edited: &mut LockState,
    now: Instant,
    choice: usize,
    ticked: &mut LockState,
    later: Instant,
    cleared: bool,
    deadline: Option<Instant>,
    editable: bool,
    shown: LockVisual,
)
    requires
        old(edited)@.wf(),
        old(edited)@.can_edit(),
        choice < state::valid_flips(old(edited)@.torch_mask).len(),
        call_ensures(LockState::note_edit_with_choice, (edited, now, choice), ()),
        call_ensures(LockState::next_deadline, (&*final(edited), now), deadline),
        *old(ticked) == *final(edited),
        call_ensures(LockState::tick, (ticked, later), cleared),
        call_ensures(LockState::can_edit, (&*final(ticked),), editable),
        call_ensures(LockState::visual, (&*final(ticked), later), shown),
    ensures
        cleared <==> later.nanos >= now.nanos + 10_000_000_000,
        shown is Torch <==> !cleared,
        shown is Hidden <==> cleared,
        editable,
        !cleared ==> final(ticked)@ == final(edited)@,
        now.nanos + 10_000_000_000 <= LAST_INSTANT_NANOS ==> deadline == Some(
            later_by(now, 10_000_000_000),
        ),
{
    state::lemma_valid_flips(old(edited)@.torch_mask);
}

/// An edit flips exactly one torch, never to all lit or all dark, shows it under a new number, and
/// leaves the attempts and the denials counted so far alone. Whatever chance picks, the same holds.
pub proof fn lemma_an_edit_flips_one_torch(
    chosen: &mut LockState,
    drawn: &mut LockState,
    now: Instant,
    choice: usize,
    shown: LockVisual,
    shown_drawn: LockVisual,
)
    requires
        old(chosen)@.wf(),
        old(chosen)@.can_edit(),
        *old(drawn) == *old(chosen),
        choice < state::valid_flips(old(chosen)@.torch_mask).len(),
        call_ensures(LockState::note_edit_with_choice, (chosen, now, choice), ()),
        call_ensures(LockState::visual, (&*final(chosen), now), shown),
        call_ensures(LockState::note_edit, (drawn, now), ()),
        call_ensures(LockState::visual, (&*final(drawn), now), shown_drawn),
    ensures
        one_bit_apart(old(chosen)@.torch_mask, shown->mask),
        shown is Torch && 0 < shown->mask < 15,
        shown->state_id != old(chosen)@.torch_state_id,
        final(chosen)@.next_attempt == old(chosen)@.next_attempt,
        final(chosen)@.failures == old(chosen)@.failures,
        final(chosen)@.phase == old(chosen)@.phase,
        one_bit_apart(old(drawn)@.torch_mask, shown_drawn->mask),
        shown_drawn is Torch && 0 < shown_drawn->mask < 15,
        shown_drawn->state_id == shown->state_id,
        final(drawn)@.last_input_at == final(chosen)@.last_input_at,
{
    state::lemma_valid_flips(old(chosen)@.torch_mask);
}

/// Whether two masks of four torches differ in one torch and in no other.
pub open spec fn one_bit_apart(mask: u8, other: u8) -> bool {
    other == mask ^ 1u8 || other == mask ^ 2u8 || other == mask ^ 4u8 || other == mask ^ 8u8
}

/// The flips on offer are numbered from nothing upwards without gaps, three or four of them. Two
/// different numbers flip different torches, and every flip that leaves some torch lit and some
/// torch dark has a number.
pub proof fn lemma_the_flips_are_numbered_without_gaps(
    mask: u8,
    count: usize,
    choice: usize,
    other: usize,
    flipped: Option<u8>,
    flipped_otherwise: Option<u8>,
    wanted: u8,
)
    requires
        mask <= 15,
        call_ensures(state::valid_flip_count, (mask,), count),
        call_ensures(state::mask_after_valid_flip, (mask, choice), flipped),
        call_ensures(state::mask_after_valid_flip, (mask, other), flipped_otherwise),
        one_bit_apart(mask, wanted),
        0 < wanted < 15,
    ensures
        3 <= count <= 4,
        count == 4 <==> 0 < mask ^ 1u8 < 15 && 0 < mask ^ 2u8 < 15 && 0 < mask ^ 4u8 < 15 && 0
            < mask ^ 8u8 < 15,
        flipped is Some <==> choice < count,
        flipped is Some ==> one_bit_apart(mask, flipped->0) && 0 < flipped->0 < 15,
        choice < other && flipped_otherwise is Some ==> torch_of(mask, flipped->0) < torch_of(
            mask,
            flipped_otherwise->0,
        ),
        exists|number: int|
            0 <= number < count && #[trigger] state::valid_flips(mask)[number] == wanted,
{
    state::lemma_valid_flips(mask);
    assert(state::one_torch_apart(mask, wanted));
    assert(state::valid_flips(mask).contains(wanted));
    let (a, b, c, d) = (mask ^ 1u8, mask ^ 2u8, mask ^ 4u8, mask ^ 8u8);
    assert(a <= 15 && b <= 15 && c <= 15 && d <= 15 && a != b && a != c && a != d && b != c && b
        != d && c != d && (a == 0 ==> b != 15 && c != 15 && d != 15) && (b == 0 ==> a != 15 && c
        != 15 && d != 15) && (c == 0 ==> a != 15 && b != 15 && d != 15) && (d == 0 ==> a != 15 && b
        != 15 && c != 15)) by (bit_vector)
        requires
            mask <= 15,
            a == mask ^ 1u8,
            b == mask ^ 2u8,
            c == mask ^ 4u8,
            d == mask ^ 8u8,
    ;
    reveal(Seq::filter);
    reveal_with_fuel(Seq::filter, 5);
    assert(seq![a, b, c, d].drop_last() == seq![a, b, c]);
    assert(seq![a, b, c].drop_last() == seq![a, b]);
    assert(seq![a, b].drop_last() == seq![a]);
    assert(seq![a].drop_last() == Seq::<u8>::empty());
    let partial = state::is_partial_mask();
    let f1 = if partial(a) { seq![a] } else { Seq::<u8>::empty() };
    let f2 = if partial(b) { f1.push(b) } else { f1 };
    let f3 = if partial(c) { f2.push(c) } else { f2 };
    let f4 = if partial(d) { f3.push(d) } else { f3 };
    assert(state::valid_flips(mask) == f4);
}

/// Which of the four torches two masks differ in.
pub open spec fn torch_of(mask: u8, flipped: u8) -> int {
    if flipped == mask ^ 1u8 {
        0
    } else if flipped == mask ^ 2u8 {
        1
    } else if flipped == mask ^ 4u8 {
        2
    } else {
        3
    }
}

/// A lock whose input is closed stays as it is, whatever is typed, cancelled or submitted.
pub proof fn lemma_closed_input_changes_nothing(
    edited: &mut LockState,
    drawn: &mut LockState,
    cancelled: &mut LockState,
    submitted: &mut LockState,
    now: Instant,
    choice: usize,
    begun: Option<AttemptId>,
)
    requires
        old(edited)@.wf(),
        call_ensures(LockState::can_edit, (&*old(edited),), false),
        *old(drawn) == *old(edited),
        *old(cancelled) == *old(edited),
        *old(submitted) == *old(edited),
        call_ensures(LockState::note_edit_with_choice, (edited, now, choice), ()),
        call_ensures(LockState::note_edit, (drawn, now), ()),
        call_ensures(LockState::note_cancel, (cancelled, now), ()),
        call_ensures(LockState::begin_authentication, (submitted, now), begun),
    ensures
        final(edited)@ == old(edited)@,
        final(drawn)@ == old(edited)@,
        final(cancelled)@ == old(edited)@,
        final(submitted)@ == old(edited)@,
        begun is None,
{
}

/// Input is open only while the lock is idle, confirmed and not flashing; in every other phase it
/// is closed.
pub proof fn lemma_input_is_open_only_while_idle(lock: LockState, editable: bool)
    requires
        lock@.wf(),
        call_ensures(LockState::can_edit, (&lock,), editable),
    ensures
        editable <==> lock@.phase is Idle && lock@.esc_flash is None,
{
}

/// Submitting shows the creeper from that moment on, closes the input until an answer comes, and
/// sets no deadline. No attempt gets the number of an earlier one.
pub proof fn lemma_submitting_starts_one_attempt(
    submitted: &mut LockState,
    again: &mut LockState,
    now: Instant,
    later: Instant,
    begun: Option<AttemptId>,
    begun_again: Option<AttemptId>,
    shown: LockVisual,
    editable: bool,
    deadline: Option<Instant>,
)
    requires
        old(submitted)@.wf(),
        old(submitted)@.can_edit(),
        old(submitted)@.next_attempt < u64::MAX,
        call_ensures(LockState::begin_authentication, (submitted, now), begun),
        call_ensures(LockState::visual, (&*final(submitted), later), shown),
        call_ensures(LockState::can_edit, (&*final(submitted),), editable),
        call_ensures(LockState::next_deadline, (&*final(submitted), later), deadline),
        *old(again) == *final(submitted),
        call_ensures(LockState::begin_authentication, (again, later), begun_again),
    ensures
        begun is Some,
        (begun->0).0 == old(submitted)@.next_attempt,
        final(submitted)@.next_attempt > (begun->0).0,
        shown == (LockVisual::Creeper { approach_started_at: now, red: false }),
        !editable,
        deadline is None,
        begun_again is None,
        final(again)@ == final(submitted)@,
        final(submitted)@.failures == old(submitted)@.failures,
{
}

/// An accepted password dissolves the creeper that is already on its way, from the moment of the
/// answer on. One second later the dissolve is over, and not before.
pub proof fn lemma_an_accepted_password_dissolves_the_creeper(
    submitted: &mut LockState,
    answered: &mut LockState,
    ticked: &mut LockState,
    begun: AttemptId,
    submitted_at: Instant,
    answered_at: Instant,
    later: Instant,
    consumed: bool,
    cleared: bool,
    shown: LockVisual,
    deadline: Option<Instant>,
    done: Option<AttemptId>,
    moving: bool,
    editable: bool,
    usable: bool,
)
    requires
        old(submitted)@.wf(),
        call_ensures(LockState::begin_authentication, (submitted, submitted_at), Some(begun)),
        *old(answered) == *final(submitted),
        call_ensures(
            LockState::authentication_result,
            (answered, begun, AuthDecision::Authenticated, answered_at),
            consumed,
        ),
        call_ensures(LockState::visual, (&*final(answered), later), shown),
        call_ensures(LockState::next_deadline, (&*final(answered), answered_at), deadline),
        call_ensures(LockVisual::completed_dissolve_attempt, (shown, later), done),
        call_ensures(LockVisual::wants_continuous_frames, (shown, later), moving),
        call_ensures(LockState::can_edit, (&*final(answered),), editable),
        call_ensures(LockState::can_use_lock_surfaces, (&*final(answered),), usable),
        *old(ticked) == *final(answered),
        call_ensures(LockState::tick, (ticked, later), cleared),
    ensures
        consumed,
        shown == (LockVisual::DissolvingCreeper {
            attempt: begun,
            approach_started_at: submitted_at,
            started_at: answered_at,
        }),
        answered_at.nanos + 1_000_000_000 <= LAST_INSTANT_NANOS ==> deadline == Some(
            later_by(answered_at, 1_000_000_000),
        ),
        done == if later.nanos >= answered_at.nanos + 1_000_000_000 {
            Some(begun)
        } else {
            None
        },
        moving,
        !editable,
        usable,
        !cleared,
        final(ticked)@ == final(answered)@,
        final(answered)@.failures == old(submitted)@.failures,
{
}

/// A refused password turns the creeper red without starting it anew and keeps the input closed for
/// one second after the first refusal, two after the second, four after the third and eight after
/// every further one. Nothing happens before that time is over; then all torches are lit, the input
/// is open, and an idle period begins at the end of the wait.
pub proof fn lemma_a_refused_password_makes_the_user_wait(
    submitted: &mut LockState,
    answered: &mut LockState,
    ticked: &mut LockState,
    begun: AttemptId,
    submitted_at: Instant,
    answered_at: Instant,
    later: Instant,
    consumed: bool,
    cleared: bool,
    shown: LockVisual,
    shown_later: LockVisual,
    deadline: Option<Instant>,
    editable: bool,
    editable_later: bool,
    deadline_later: Option<Instant>,
    moving: bool,
    wait: int,
)
    requires
        old(submitted)@.wf(),
        call_ensures(LockState::begin_authentication, (submitted, submitted_at), Some(begun)),
        *old(answered) == *final(submitted),
        call_ensures(
            LockState::authentication_result,
            (answered, begun, AuthDecision::Denied, answered_at),
            consumed,
        ),
        wait == match old(submitted)@.failures {
            0u8 => 1_000_000_000int,
            1u8 => 2_000_000_000int,
            2u8 => 4_000_000_000int,
            _ => 8_000_000_000int,
        },
        answered_at.nanos + wait + 10_000_000_000 <= LAST_INSTANT_NANOS,
        call_ensures(LockState::visual, (&*final(answered), later), shown),
        call_ensures(LockVisual::wants_continuous_frames, (shown, later), moving),
        call_ensures(LockState::can_edit, (&*final(answered),), editable),
        call_ensures(LockState::next_deadline, (&*final(answered), answered_at), deadline),
        *old(ticked) == *final(answered),
        call_ensures(LockState::tick, (ticked, later), cleared),
        call_ensures(LockState::visual, (&*final(ticked), later), shown_later),
        call_ensures(LockState::can_edit, (&*final(ticked),), editable_later),
        call_ensures(
            LockState::next_deadline,
            (&*final(ticked), later_by(answered_at, wait)),
            deadline_later,
        ),
    ensures
        consumed,
        shown == (LockVisual::Creeper { approach_started_at: submitted_at, red: true }),
        moving <==> later.nanos < submitted_at.nanos + 500_000_000,
        !editable,
        deadline == Some(later_by(answered_at, wait)),
        !cleared,
        later.nanos < answered_at.nanos + wait ==> final(ticked)@ == final(answered)@,
        editable_later <==> later.nanos >= answered_at.nanos + wait,
        editable_later ==> shown_later is Torch && shown_later->mask == 15 && deadline_later == Some(
            later_by(answered_at, wait + 10_000_000_000),
        ),
        editable_later ==> shown_later->state_id != old(submitted)@.torch_state_id,
        final(answered)@.failures == if old(submitted)@.failures < 255 {
            old(submitted)@.failures + 1
        } else {
            255
        },
        final(ticked)@.failures == final(answered)@.failures,
{
}

/// A failure of the system, or a fault from outside, leaves a black lock that never unlocks: input
/// stays closed, no surface is used, no tick and no answer changes it.
pub proof fn lemma_a_fatal_lock_stays_fatal(
    submitted: &mut LockState,
    answered: &mut LockState,
    faulted: &mut LockState,
    ticked: &mut LockState,
    prepared: &mut LockState,
    consumed: &mut LockState,
    begun: AttemptId,
    late: AttemptId,
    decision: AuthDecision,
    late_answer: &mut LockState,
    at: Instant,
    accepted: bool,
    fatal: bool,
    fatal_too: bool,
    shown: LockVisual,
    usable: bool,
    editable: bool,
    outs: (bool, bool, bool, bool),
)
    requires
        old(submitted)@.wf(),
        call_ensures(LockState::begin_authentication, (submitted, at), Some(begun)),
        *old(answered) == *final(submitted),
        call_ensures(
            LockState::authentication_result,
            (answered, begun, AuthDecision::SystemFailure, at),
            accepted,
        ),
        call_ensures(LockState::is_fatal, (&*final(answered),), fatal),
        old(faulted)@.wf(),
        call_ensures(LockState::enter_fatal, (faulted,), ()),
        call_ensures(LockState::is_fatal, (&*final(faulted),), fatal_too),
        call_ensures(LockState::visual, (&*final(faulted), at), shown),
        call_ensures(LockState::can_use_lock_surfaces, (&*final(faulted),), usable),
        call_ensures(LockState::can_edit, (&*final(faulted),), editable),
        *old(ticked) == *final(faulted),
        call_ensures(LockState::tick, (ticked, at), outs.0),
        *old(prepared) == *final(faulted),
        call_ensures(LockState::prepare_unlock, (prepared, at, true), outs.1),
        *old(consumed) == *final(faulted),
        call_ensures(LockState::consume_unlock_gate, (consumed,), outs.2),
        *old(late_answer) == *final(faulted),
        call_ensures(LockState::authentication_result, (late_answer, late, decision, at), outs.3),
    ensures
        accepted,
        fatal,
        fatal_too,
        shown is FatalBlack,
        !usable,
        !editable,
        !outs.0 && !outs.1 && !outs.2 && !outs.3,
        final(ticked)@ == final(faulted)@,
        final(prepared)@ == final(faulted)@,
        final(consumed)@ == final(faulted)@,
        final(late_answer)@ == final(faulted)@,
{
}

/// An answer to another attempt than the one that waits is not taken, whatever it says.
pub proof fn lemma_only_the_waiting_attempt_is_answered(
    submitted: &mut LockState,
    answered: &mut LockState,
    begun: AttemptId,
    other: AttemptId,
    decision: AuthDecision,
    submitted_at: Instant,
    answered_at: Instant,
    consumed: bool,
    idle: &mut LockState,
    unasked: bool,
)
    requires
        old(submitted)@.wf(),
        call_ensures(LockState::begin_authentication, (submitted, submitted_at), Some(begun)),
        other.0 != begun.0,
        *old(answered) == *final(submitted),
        call_ensures(
            LockState::authentication_result,
            (answered, other, decision, answered_at),
            consumed,
        ),
        old(idle)@.wf(),
        old(idle)@.can_edit(),
        call_ensures(
            LockState::authentication_result,
            (idle, other, decision, answered_at),
            unasked,
        ),
    ensures
        !consumed,
        final(answered)@ == final(submitted)@,
        !unasked,
        final(idle)@ == old(idle)@,
{
}

/// The session is unlocked exactly once, and only after an accepted password, a dissolve of one
/// second and a presentation on every output: until then the unlock stays shut, and after its one use
/// it stays shut for good. The lock is finished once the compositor has answered.
pub proof fn lemma_the_unlock_happens_once_after_the_dissolve(
    answered: LockState,
    prepared: &mut LockState,
    opened: &mut LockState,
    tried: &mut LockState,
    synced: &mut LockState,
    now: Instant,
    presented: bool,
    ready: bool,
    accepts: bool,
    first: bool,
    second: bool,
    awaiting: bool,
    usable: bool,
    completed: bool,
    shut: &mut LockState,
    early: bool,
    shown: LockVisual,
)
    requires
        answered@.wf(),
        answered@.phase is Authenticated,
        *old(shut) == answered,
        call_ensures(LockState::consume_unlock_gate, (shut,), early),
        *old(prepared) == answered,
        call_ensures(LockState::prepare_unlock, (prepared, now, presented), ready),
        call_ensures(LockState::accepts_new_outputs, (&*final(prepared),), accepts),
        *old(opened) == *final(prepared),
        call_ensures(LockState::consume_unlock_gate, (opened,), first),
        call_ensures(LockState::awaiting_unlock_sync, (&*final(opened),), awaiting),
        call_ensures(LockState::can_use_lock_surfaces, (&*final(opened),), usable),
        *old(tried) == *final(opened),
        call_ensures(LockState::consume_unlock_gate, (tried,), second),
        *old(synced) == *final(tried),
        call_ensures(LockState::unlock_sync_completed, (synced,), completed),
        call_ensures(LockState::visual, (&*final(synced), now), shown),
    ensures
        !early,
        final(shut)@ == answered@,
        ready <==> presented && now.nanos >= answered@.phase->Authenticated_started_at.nanos
            + 1_000_000_000,
        !ready ==> final(prepared)@ == answered@,
        accepts <==> !ready,
        first <==> ready,
        awaiting <==> ready,
        usable <==> !ready,
        !second,
        final(tried)@ == final(opened)@,
        completed <==> ready,
        completed ==> final(synced)@.phase is Finished && shown is Hidden,
        !completed ==> final(synced)@ == answered@,
{
}

/// When the compositor ends the lock, a lock that it had confirmed turns black and is not to be
/// taken for an unlock; one that it never confirmed is merely over.
pub proof fn lemma_a_lock_ended_by_the_compositor(
    ended: &mut LockState,
    now: Instant,
    was_locked: bool,
    shown: LockVisual,
    usable: bool,
    fresh: LockState,
    refused: &mut LockState,
    never_locked: bool,
    shown_refused: LockVisual,
)
    requires
        old(ended)@.wf(),
        old(ended)@.compositor_confirmed,
        call_ensures(LockState::compositor_finished, (ended,), was_locked),
        call_ensures(LockState::visual, (&*final(ended), now), shown),
        call_ensures(LockState::can_use_lock_surfaces, (&*final(ended),), usable),
        call_ensures(LockState::new, (), fresh),
        *old(refused) == fresh,
        call_ensures(LockState::compositor_finished, (refused,), never_locked),
        call_ensures(LockState::visual, (&*final(refused), now), shown_refused),
    ensures
        was_locked,
        shown is FatalBlack,
        !usable,
        !never_locked,
        shown_refused is Hidden,
        final(refused)@.phase is Finished,
{
}

/// Cancelling lights all torches, then none, then all, then none, a tenth of a second each, with the
/// input closed. From the end of the last step on all are lit, the input is open, and ten seconds
/// later they are hidden. What is drawn depends on the time alone, not on how often the lock was
/// ticked before.
pub proof fn lemma_cancelling_flashes_the_torches(
    cancelled: &mut LockState,
    between: &mut LockState,
    ticked: &mut LockState,
    now: Instant,
    first: Instant,
    later: Instant,
    cleared_first: bool,
    cleared: bool,
    shown: LockVisual,
    editable: bool,
    deadline: Option<Instant>,
)
    requires
        old(cancelled)@.wf(),
        old(cancelled)@.can_edit(),
        now.nanos + 20_000_000_000 <= LAST_INSTANT_NANOS,
        call_ensures(LockState::note_cancel, (cancelled, now), ()),
        call_ensures(LockState::next_deadline, (&*final(cancelled), now), deadline),
        *old(between) == *final(cancelled),
        call_ensures(LockState::tick, (between, first), cleared_first),
        now.nanos <= first.nanos <= later.nanos,
        first.nanos < now.nanos + 400_000_000,
        *old(ticked) == *final(between),
        call_ensures(LockState::tick, (ticked, later), cleared),
        call_ensures(LockState::visual, (&*final(ticked), later), shown),
        call_ensures(LockState::can_edit, (&*final(ticked),), editable),
    ensures
        deadline == Some(later_by(now, 100_000_000)),
        !cleared_first,
        cleared <==> later.nanos >= now.nanos + 10_400_000_000,
        editable <==> later.nanos >= now.nanos + 400_000_000,
        shown is Torch <==> !cleared,
        shown is Hidden <==> cleared,
        later.nanos < now.nanos + 100_000_000 ==> shown->mask == 15,
        now.nanos + 100_000_000 <= later.nanos < now.nanos + 200_000_000 ==> shown->mask == 0,
        now.nanos + 200_000_000 <= later.nanos < now.nanos + 300_000_000 ==> shown->mask == 15,
        now.nanos + 300_000_000 <= later.nanos < now.nanos + 400_000_000 ==> shown->mask == 0,
        now.nanos + 400_000_000 <= later.nanos < now.nanos + 10_400_000_000 ==> shown->mask == 15,
        final(ticked)@.failures == old(cancelled)@.failures,
        final(ticked)@.next_attempt == old(cancelled)@.next_attempt,
{
}

/// A deadline is when something happens, and nothing happens before it: an earlier tick changes
/// nothing, and a tick at the deadline or later changes the lock, unless what is due is the unlock.
pub proof fn lemma_nothing_happens_before_the_deadline(
    lock: LockState,
    early: &mut LockState,
    due: &mut LockState,
    asked_at: Instant,
    early_at: Instant,
    due_at: Instant,
    deadline: Option<Instant>,
    cleared_early: bool,
    cleared: bool,
    presented: &mut LockState,
    ready: bool,
)
    requires
        lock@.wf(),
        call_ensures(LockState::next_deadline, (&lock, asked_at), deadline),
        *old(early) == lock,
        call_ensures(LockState::tick, (early, early_at), cleared_early),
        *old(due) == lock,
        call_ensures(LockState::tick, (due, due_at), cleared),
        *old(presented) == lock,
        call_ensures(LockState::prepare_unlock, (presented, due_at, true), ready),
    ensures
        deadline is Some ==> deadline->0.nanos > asked_at.nanos,
        deadline is Some && early_at.nanos < deadline->0.nanos ==> !cleared_early && final(early)@
            == lock@,
        deadline is Some && due_at.nanos >= deadline->0.nanos ==> ready || final(due)@ != lock@,
        deadline is Some && lock@.phase is Authenticated ==> (ready <==> due_at.nanos
            >= deadline->0.nanos),
{
}

/// While the creeper approaches it is drawn continuously: for half a second from its start.
pub proof fn lemma_the_approach_is_drawn_for_half_a_second(
    shown: LockVisual,
    now: Instant,
    moving: bool,
    done: Option<AttemptId>,
)
    requires
        call_ensures(LockVisual::wants_continuous_frames, (shown, now), moving),
        call_ensures(LockVisual::completed_dissolve_attempt, (shown, now), done),
    ensures
        shown is Creeper ==> (moving <==> now.nanos
            < shown->Creeper_approach_started_at.nanos + 500_000_000),
        shown is DissolvingCreeper ==> moving,
        shown is Hidden || shown is Torch || shown is FatalBlack ==> !moving,
        done is Some ==> shown is DissolvingCreeper && done->0 == shown->attempt,
        shown is DissolvingCreeper ==> (done is Some <==> now.nanos >= shown->started_at.nanos
            + 1_000_000_000),
{
}

/// Every step of the flash is shown under a new number, one further than the step before it.
pub proof fn lemma_every_flash_has_a_number(
    cancelled: &mut LockState,
    ticked: &mut LockState,
    now: Instant,
    step: int,
    later: Instant,
    cleared: bool,
)
    requires
        old(cancelled)@.wf(),
        old(cancelled)@.can_edit(),
        old(cancelled)@.torch_state_id < 1_000,
        now.nanos + 20_000_000_000 <= LAST_INSTANT_NANOS,
        call_ensures(LockState::note_cancel, (cancelled, now), ()),
        0 <= step <= 4,
        now.nanos + 100_000_000 * step <= later.nanos,
        step < 4 ==> later.nanos < now.nanos + 100_000_000 * (step + 1),
        *old(ticked) == *final(cancelled),
        call_ensures(LockState::tick, (ticked, later), cleared),
    ensures
        final(ticked)@.torch_state_id == old(cancelled)@.torch_state_id + 1 + step,
{
    let flash = final(cancelled)@.esc_flash->0;
    assert(flash.step == 0 && flash.next_step_at.nanos == now.nanos + 100_000_000);
    if step > 0 {
        let due = (later.nanos - flash.next_step_at.nanos) as int / 100_000_000 + 1;
        assert(step < 4 ==> due == step);
        assert(step == 4 ==> due >= 4);
        assert(state::flash_room(flash.next_step_at) >= 4);
        assert(final(ticked)@.torch_state_id == final(cancelled)@.torch_changes(
            step,
        ).torch_state_id);
    }
}

/// Where the clock cannot name the end of a wait, the lock does not wait: a cancelled entry and a
/// refused password both leave a black lock.
pub proof fn lemma_the_end_of_the_clock_is_fatal(
    cancelled: &mut LockState,
    submitted: &mut LockState,
    answered: &mut LockState,
    begun: AttemptId,
    now: Instant,
    consumed: bool,
    shown: LockVisual,
    shown_answered: LockVisual,
)
    requires
        old(cancelled)@.wf(),
        old(cancelled)@.can_edit(),
        now.nanos + 100_000_000 > LAST_INSTANT_NANOS,
        call_ensures(LockState::note_cancel, (cancelled, now), ()),
        call_ensures(LockState::visual, (&*final(cancelled), now), shown),
        old(submitted)@.wf(),
        call_ensures(LockState::begin_authentication, (submitted, now), Some(begun)),
        *old(answered) == *final(submitted),
        call_ensures(
            LockState::authentication_result,
            (answered, begun, AuthDecision::Denied, now),
            consumed,
        ),
        call_ensures(LockState::visual, (&*final(answered), now), shown_answered),
    ensures
        shown is FatalBlack,
        consumed && shown_answered is FatalBlack,
{
}

/// A flash whose next step the clock cannot name ends in a black lock.
pub proof fn lemma_a_flash_at_the_end_of_the_clock_is_fatal(
    cancelled: &mut LockState,
    ticked: &mut LockState,
    now: Instant,
    later: Instant,
    steps: int,
    cleared: bool,
    shown: LockVisual,
)
    requires
        old(cancelled)@.wf(),
        old(cancelled)@.can_edit(),
        1 <= steps <= 3,
        now.nanos + steps * 100_000_000 <= later.nanos <= LAST_INSTANT_NANOS,
        now.nanos + (steps + 1) * 100_000_000 > LAST_INSTANT_NANOS,
        call_ensures(LockState::note_cancel, (cancelled, now), ()),
        *old(ticked) == *final(cancelled),
        call_ensures(LockState::tick, (ticked, later), cleared),
        call_ensures(LockState::visual, (&*final(ticked), later), shown),
    ensures
        shown is FatalBlack,
{
}

/// What a lock shows is numbered from its first edit on, which is the first number.
pub proof fn lemma_the_first_edit_has_the_first_number(
    fresh: LockState,
    opened: &mut LockState,
    edited: &mut LockState,
    entered: bool,
    now: Instant,
    shown: LockVisual,
)
    requires
        call_ensures(LockState::new, (), fresh),
        *old(opened) == fresh,
        call_ensures(LockState::compositor_locked, (opened,), entered),
        *old(edited) == *final(opened),
        call_ensures(LockState::note_edit, (edited, now), ()),
        call_ensures(LockState::visual, (&*final(edited), now), shown),
    ensures
        shown is Torch && shown->state_id == 1,
{
}

} // verus!
