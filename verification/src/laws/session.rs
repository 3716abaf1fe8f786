//! The session lock: what the keys do to the password, what becomes of a submitted one, and what
//! ends the lock.

use vstd::prelude::*;
use vstd::utf8;

use crate::laws::lock;
use crate::lock::pam::secret::{LockedSecret, SecretError};
use crate::lock::state;
use crate::lock::state::{AttemptId, LockState, LockVisual};
use crate::lock::worker::AuthReply;
use crate::renderer::RenderOutcome;
use crate::schedule;
use crate::session;
use crate::session::{Key, KeyOutcome, LockSession, SubmitOutcome};
use crate::time::{Instant, LAST_INSTANT_NANOS};

verus! {

/// Whether a text holds no control character and is not empty.
pub open spec fn is_plain(text: Seq<char>) -> bool {
    &&& text.len() > 0
    &&& forall|i: int|
        0 <= i < text.len() ==> 0x20 <= (#[trigger] text[i]) as int && !(0x7f <= text[i] as int
            <= 0x9f)
}

/// Typed text goes to the end of the password, as far as 511 bytes hold it. A control character, a
/// null byte or one byte too many leaves the password as it is. Typing never submits.
pub proof fn lemma_typed_text_goes_to_the_end(
    typed: &mut LockSession,
    text: &str,
    repeated: bool,
    now: Instant,
    outcome: KeyOutcome,
)
    requires
        old(typed).wf(),
        old(typed)@.lock.can_edit(),
        call_ensures(
            LockSession::key_event,
            (typed, Key::Other, Some(text), repeated, true, now),
            outcome,
        ),
    ensures
        is_plain(text@) && !utf8::encode_utf8(text@).contains(0u8) && utf8::encode_utf8(
            old(typed)@.password,
        ).len() + utf8::encode_utf8(text@).len() <= 511 ==> final(typed)@.password == old(typed)@.password + text@ && final(typed)@.redraw_all,
        !is_plain(text@) || utf8::encode_utf8(text@).contains(0u8) || utf8::encode_utf8(
            old(typed)@.password,
        ).len() + utf8::encode_utf8(text@).len() > 511 ==> final(typed)@ == old(typed)@,
        !outcome.submit,
        outcome.repeat_allowed,
{
    assert(is_plain(text@) <==> session::is_typed_text(text@)) by {
        if is_plain(text@) {
            assert forall|i: int| 0 <= i < text@.len() implies !session::is_control(
                #[trigger] text@[i],
            ) by {
                assert(0x20 <= text@[i] as int);
            }
        }
        if session::is_typed_text(text@) {
            assert forall|i: int| 0 <= i < text@.len() implies 0x20 <= (#[trigger] text@[i]) as int
                && !(0x7f <= text@[i] as int <= 0x9f) by {
                assert(!session::is_control(text@[i]));
            }
        }
    }
}

/// The key that deletes backwards takes back the last character: what one character has added is
/// gone again. An empty password stays as it is. A repeat of that key deletes on.
pub proof fn lemma_deleting_takes_back_what_was_typed(
    typed: &mut LockSession,
    deleted: &mut LockSession,
    text: &str,
    typed_at: Instant,
    deleted_at: Instant,
    repeated: bool,
    outcomes: (KeyOutcome, KeyOutcome, KeyOutcome),
    empty: &mut LockSession,
)
    requires
        old(typed).wf(),
        old(typed)@.lock.can_edit(),
        text@.len() == 1,
        is_plain(text@),
        !utf8::encode_utf8(text@).contains(0u8),
        utf8::encode_utf8(old(typed)@.password).len() + utf8::encode_utf8(text@).len() <= 511,
        call_ensures(
            LockSession::key_event,
            (typed, Key::Other, Some(text), false, true, typed_at),
            outcomes.0,
        ),
        *old(deleted) == *final(typed),
        call_ensures(
            LockSession::key_event,
            (deleted, Key::BackSpace, None::<&str>, repeated, true, deleted_at),
            outcomes.1,
        ),
        old(empty).wf(),
        old(empty)@.password.len() == 0,
        call_ensures(
            LockSession::key_event,
            (empty, Key::BackSpace, None::<&str>, repeated, true, deleted_at),
            outcomes.2,
        ),
    ensures
        final(deleted)@.password == old(typed)@.password,
        !outcomes.1.submit,
        final(empty)@.password.len() == 0,
        final(empty)@.lock == old(empty)@.lock,
        !outcomes.2.submit,
{
    lemma_typed_text_goes_to_the_end(typed, text, false, typed_at, outcomes.0);
    old(typed).lemma_holds_a_sound_lock();
    state::lemma_valid_flips(old(typed)@.lock.torch_mask);
    assert((old(typed)@.password + text@).drop_last() == old(typed)@.password);
}

/// The forward delete key deletes the last character too, but only when it is pressed; its repeats
/// do nothing.
pub proof fn lemma_forward_delete_does_not_repeat(
    pressed: &mut LockSession,
    repeated: &mut LockSession,
    now: Instant,
    outcomes: (KeyOutcome, KeyOutcome),
)
    requires
        old(pressed).wf(),
        old(pressed)@.lock.can_edit(),
        old(pressed)@.password.len() > 0,
        call_ensures(
            LockSession::key_event,
            (pressed, Key::Delete, None::<&str>, false, true, now),
            outcomes.0,
        ),
        *old(repeated) == *old(pressed),
        call_ensures(
            LockSession::key_event,
            (repeated, Key::Delete, None::<&str>, true, true, now),
            outcomes.1,
        ),
    ensures
        final(pressed)@.password == old(pressed)@.password.drop_last(),
        final(repeated)@ == old(repeated)@,
        !outcomes.0.submit && !outcomes.1.submit,
{
}

/// The escape key forgets the password and closes the input; its repeats do nothing.
pub proof fn lemma_escape_forgets_the_password(
    pressed: &mut LockSession,
    repeated: &mut LockSession,
    now: Instant,
    outcomes: (KeyOutcome, KeyOutcome),
    editable: bool,
)
    requires
        old(pressed).wf(),
        old(pressed)@.lock.can_edit(),
        call_ensures(
            LockSession::key_event,
            (pressed, Key::Escape, None::<&str>, false, true, now),
            outcomes.0,
        ),
        call_ensures(LockSession::can_edit, (&*final(pressed),), editable),
        *old(repeated) == *old(pressed),
        call_ensures(
            LockSession::key_event,
            (repeated, Key::Escape, None::<&str>, true, true, now),
            outcomes.1,
        ),
    ensures
        final(pressed)@.password.len() == 0,
        final(pressed)@.redraw_all,
        !editable,
        final(repeated)@ == old(repeated)@,
        !outcomes.0.submit && !outcomes.1.submit,
{
}

/// The enter key submits when it is pressed and leaves the password to whoever submits it; its
/// repeats do not submit. Nothing else submits.
pub proof fn lemma_only_pressing_enter_submits(
    pressed: &mut LockSession,
    other: &mut LockSession,
    key: Key,
    text: Option<&str>,
    repeated: bool,
    allowed: bool,
    now: Instant,
    outcome: KeyOutcome,
    other_outcome: KeyOutcome,
)
    requires
        old(pressed).wf(),
        old(pressed)@.lock.can_edit(),
        call_ensures(
            LockSession::key_event,
            (pressed, Key::Enter, text, false, allowed, now),
            outcome,
        ),
        old(other).wf(),
        call_ensures(
            LockSession::key_event,
            (other, key, text, repeated, allowed, now),
            other_outcome,
        ),
    ensures
        outcome.submit,
        final(pressed)@ == old(pressed)@,
        other_outcome.submit ==> key is Enter && !repeated && old(other)@.lock.can_edit(),
{
}

/// A key does nothing while the input is closed, and a repeat does nothing unless its press was
/// made while the input was open; whether it was is remembered.
pub proof fn lemma_keys_need_open_input(
    closed: &mut LockSession,
    repeated: &mut LockSession,
    key: Key,
    text: Option<&str>,
    again: bool,
    allowed: bool,
    now: Instant,
    outcome: KeyOutcome,
    repeat_outcome: KeyOutcome,
)
    requires
        old(closed).wf(),
        call_ensures(LockSession::can_edit, (&*old(closed),), false),
        call_ensures(LockSession::key_event, (closed, key, text, again, allowed, now), outcome),
        old(repeated).wf(),
        call_ensures(
            LockSession::key_event,
            (repeated, key, text, true, false, now),
            repeat_outcome,
        ),
    ensures
        final(closed)@ == old(closed)@,
        !outcome.submit && outcome.repeat_allowed == allowed,
        final(repeated)@ == old(repeated)@,
        !repeat_outcome.submit && !repeat_outcome.repeat_allowed,
{
}

/// What was typed stays for ten seconds after the last edit and is forgotten then, not before.
pub proof fn lemma_an_idle_password_is_forgotten(
    typed: &mut LockSession,
    ticked: &mut LockSession,
    text: &str,
    now: Instant,
    later: Instant,
    outcome: KeyOutcome,
    shown: LockVisual,
)
    requires
        old(typed).wf(),
        old(typed)@.lock.can_edit(),
        is_plain(text@),
        !utf8::encode_utf8(text@).contains(0u8),
        utf8::encode_utf8(old(typed)@.password).len() + utf8::encode_utf8(text@).len() <= 511,
        call_ensures(
            LockSession::key_event,
            (typed, Key::Other, Some(text), false, true, now),
            outcome,
        ),
        *old(ticked) == *final(typed),
        call_ensures(LockSession::tick, (ticked, later), ()),
        call_ensures(LockSession::visual, (&*final(ticked), later), shown),
    ensures
        later.nanos < now.nanos + 10_000_000_000 ==> final(ticked)@.password == old(typed)@.password + text@ && shown is Torch,
        later.nanos >= now.nanos + 10_000_000_000 ==> final(ticked)@.password.len() == 0
            && shown is Hidden,
{
    lemma_typed_text_goes_to_the_end(typed, text, false, now, outcome);
    old(typed).lemma_holds_a_sound_lock();
    state::lemma_valid_flips(old(typed)@.lock.torch_mask);
}

/// Submitting hands over exactly what was typed, under the number of the attempt that it starts,
/// and keeps nothing of it. A second submission while the first waits is ignored.
pub proof fn lemma_submitting_hands_the_password_over(
    submitted: &mut LockSession,
    again: &mut LockSession,
    empty: LockedSecret,
    other: Result<LockedSecret, SecretError>,
    now: Instant,
    later: Instant,
    outcome: SubmitOutcome,
    outcome_again: SubmitOutcome,
    shown: LockVisual,
)
    requires
        old(submitted).wf(),
        old(submitted)@.lock.can_edit(),
        old(submitted)@.lock.next_attempt < u64::MAX,
        empty.wf() && empty@.len() == 0,
        call_ensures(
            LockSession::submit_password,
            (submitted, Ok::<LockedSecret, SecretError>(empty), now),
            outcome,
        ),
        call_ensures(LockSession::visual, (&*final(submitted), later), shown),
        *old(again) == *final(submitted),
        other matches Ok(secret) ==> secret.wf() && secret@.len() == 0,
        call_ensures(LockSession::submit_password, (again, other, later), outcome_again),
    ensures
        outcome is Request,
        outcome->0.password@ == old(submitted)@.password,
        outcome->0.password.wf(),
        outcome->0.attempt.0 == old(submitted)@.lock.next_attempt,
        final(submitted)@.password.len() == 0,
        shown == (LockVisual::Creeper { approach_started_at: now, red: false }),
        outcome_again is Ignored,
        final(again)@ == final(submitted)@,
{
}

/// The answer to the submitted attempt decides: an accepted password dissolves the creeper, a
/// refused one turns it red, and a failure of the system leaves a black screen and drops the
/// connection. Every one of them is drawn. An answer to another attempt changes nothing.
pub proof fn lemma_the_answer_decides(
    submitted: &mut LockSession,
    answered: &mut LockSession,
    empty: LockedSecret,
    outcome: SubmitOutcome,
    reply: AuthReply,
    submitted_at: Instant,
    answered_at: Instant,
    consumed: bool,
    shown: LockVisual,
    disconnect: bool,
    redraw: bool,
)
    requires
        old(submitted).wf(),
        old(submitted)@.lock.can_edit(),
        old(submitted)@.lock.next_attempt < u64::MAX,
        !old(submitted)@.fatal_disconnect,
        answered_at.nanos + 8_000_000_000 <= LAST_INSTANT_NANOS,
        empty.wf() && empty@.len() == 0,
        call_ensures(
            LockSession::submit_password,
            (submitted, Ok::<LockedSecret, SecretError>(empty), submitted_at),
            outcome,
        ),
        *old(answered) == *final(submitted),
        call_ensures(LockSession::handle_auth_reply, (answered, reply, answered_at), consumed),
        call_ensures(LockSession::visual, (&*final(answered), answered_at), shown),
        call_ensures(LockSession::must_disconnect, (&*final(answered),), disconnect),
        call_ensures(LockSession::needs_redraw, (&*final(answered),), redraw),
    ensures
        consumed <==> reply.attempt.0 == outcome->0.attempt.0,
        !consumed ==> final(answered)@ == final(submitted)@,
        consumed ==> redraw && final(answered)@.password.len() == 0,
        consumed && reply.decision is Authenticated ==> !disconnect && shown == (
        LockVisual::DissolvingCreeper {
            attempt: outcome->0.attempt,
            approach_started_at: submitted_at,
            started_at: answered_at,
        }),
        consumed && reply.decision is Denied ==> !disconnect && shown == (LockVisual::Creeper {
            approach_started_at: submitted_at,
            red: true,
        }),
        consumed && reply.decision is SystemFailure ==> disconnect && shown is FatalBlack,
{
}

/// Without room for another password nothing is submitted: the lock faults, forgets what was typed
/// and drops the connection. So it does on any fault of its own machinery, when the worker does not
/// take a request, and when the worker goes away. None of these permits an unlock.
pub proof fn lemma_a_fault_never_unlocks(
    faulted: &mut LockSession,
    unsent: &mut LockSession,
    closed: &mut LockSession,
    crowded: &mut LockSession,
    gate: &mut LockSession,
    error: SecretError,
    now: Instant,
    outcome: SubmitOutcome,
    opened: bool,
    shown: LockVisual,
    shown_unsent: LockVisual,
    shown_closed: LockVisual,
    shown_crowded: LockVisual,
    disconnect: bool,
    usable: bool,
)
    requires
        old(faulted).wf(),
        call_ensures(LockSession::fault, (faulted,), ()),
        call_ensures(LockSession::visual, (&*final(faulted), now), shown),
        call_ensures(LockSession::must_disconnect, (&*final(faulted),), disconnect),
        call_ensures(LockSession::can_use_lock_surfaces, (&*final(faulted),), usable),
        *old(gate) == *final(faulted),
        call_ensures(LockSession::consume_unlock_gate, (gate,), opened),
        old(unsent).wf(),
        call_ensures(LockSession::request_sent, (unsent, false), ()),
        call_ensures(LockSession::visual, (&*final(unsent), now), shown_unsent),
        old(closed).wf(),
        !(old(closed)@.lock.phase is Fatal),
        call_ensures(LockSession::handle_worker_closed, (closed,), ()),
        call_ensures(LockSession::visual, (&*final(closed), now), shown_closed),
        old(crowded).wf(),
        old(crowded)@.lock.can_edit(),
        call_ensures(
            LockSession::submit_password,
            (crowded, Err::<LockedSecret, SecretError>(error), now),
            outcome,
        ),
        call_ensures(LockSession::visual, (&*final(crowded), now), shown_crowded),
    ensures
        shown is FatalBlack && disconnect && !usable,
        final(faulted)@.password.len() == 0,
        !opened && final(gate)@ == final(faulted)@,
        shown_unsent is FatalBlack && final(unsent)@.fatal_disconnect,
        shown_closed is FatalBlack && final(closed)@.fatal_disconnect,
        outcome is NoBuffer,
        shown_crowded is FatalBlack && final(crowded)@.fatal_disconnect,
        final(crowded)@.password.len() == 0,
{
}

/// A request that the worker took is drawn; nothing else of the session changes.
pub proof fn lemma_a_sent_request_is_drawn(
    sent: &mut LockSession,
    cleared: &mut LockSession,
    changed: &mut LockSession,
    drawn: &mut LockSession,
    needed: bool,
    needed_changed: bool,
    needed_drawn: bool,
)
    requires
        old(sent).wf(),
        call_ensures(LockSession::request_sent, (sent, true), ()),
        call_ensures(LockSession::needs_redraw, (&*final(sent),), needed),
        old(cleared).wf(),
        call_ensures(LockSession::clear_editable_secret, (cleared,), ()),
        old(changed).wf(),
        call_ensures(LockSession::outputs_changed, (changed,), ()),
        call_ensures(LockSession::needs_redraw, (&*final(changed),), needed_changed),
        *old(drawn) == *final(changed),
        call_ensures(LockSession::redrawn, (drawn,), ()),
        call_ensures(LockSession::needs_redraw, (&*final(drawn),), needed_drawn),
    ensures
        needed,
        final(sent)@.lock == old(sent)@.lock,
        final(sent)@.password == old(sent)@.password,
        final(sent)@.fatal_disconnect == old(sent)@.fatal_disconnect,
        final(cleared)@.password.len() == 0,
        final(cleared)@.lock == old(cleared)@.lock,
        needed_changed && !needed_drawn,
        final(drawn)@.lock == old(changed)@.lock,
        final(drawn)@.password == old(changed)@.password,
        final(drawn)@.last_visual == old(changed)@.last_visual,
{
}

/// A tick asks for a redraw whenever another visual than the last one drawn is to be shown, and for
/// none when the visual has stayed the same.
pub proof fn lemma_a_new_visual_is_drawn(
    ticked: &mut LockSession,
    drawn: &mut LockSession,
    again: &mut LockSession,
    now: Instant,
    shown_before: LockVisual,
    shown: LockVisual,
)
    requires
        old(ticked).wf(),
        call_ensures(LockSession::visual, (&*old(ticked), now), shown_before),
        call_ensures(LockSession::tick, (ticked, now), ()),
        call_ensures(LockSession::visual, (&*final(ticked), now), shown),
        *old(drawn) == *final(ticked),
        call_ensures(LockSession::redrawn, (drawn,), ()),
        *old(again) == *final(drawn),
        call_ensures(LockSession::tick, (again, now), ()),
    ensures
        shown != shown_before || shown != old(ticked)@.last_visual ==> final(ticked)@.redraw_all,
        final(ticked)@.last_visual == shown,
        shown == shown_before && shown == old(ticked)@.last_visual ==> final(ticked)@.redraw_all
            == old(ticked)@.redraw_all,
        final(ticked)@.fatal_disconnect == old(ticked)@.fatal_disconnect,
        final(again)@.lock == final(drawn)@.lock ==> !final(again)@.redraw_all,
{
}

/// An unlock is prepared exactly when one second has passed since the password was accepted and
/// every output, of which there is one, has presented the end of that attempt's dissolve. It then
/// permits the unlock once, and ends when the compositor has answered.
pub proof fn lemma_the_unlock_waits_for_every_output(
    prepared: &mut LockSession,
    opened: &mut LockSession,
    again: &mut LockSession,
    synced: &mut LockSession,
    now: Instant,
    markers: &[Option<AttemptId>],
    ready: bool,
    first: bool,
    second: bool,
    exit: bool,
)
    requires
        old(prepared).wf(),
        old(prepared)@.lock.phase is Authenticated,
        call_ensures(LockSession::prepare_unlock, (prepared, now, markers), ready),
        *old(opened) == *final(prepared),
        call_ensures(LockSession::consume_unlock_gate, (opened,), first),
        *old(again) == *final(opened),
        call_ensures(LockSession::consume_unlock_gate, (again,), second),
        *old(synced) == *final(again),
        call_ensures(LockSession::unlock_sync_completed, (synced,), exit),
    ensures
        ready <==> {
            &&& now.nanos >= old(prepared)@.lock.phase->Authenticated_started_at.nanos
                + 1_000_000_000
            &&& markers@.len() > 0
            &&& forall|i: int|
                0 <= i < markers@.len() ==> #[trigger] markers@[i] == Some(
                    old(prepared)@.lock.phase->Authenticated_attempt,
                )
        },
        !ready ==> final(prepared)@ == old(prepared)@,
        first <==> ready,
        !second,
        exit <==> ready,
        final(synced)@.fatal_disconnect == old(prepared)@.fatal_disconnect,
        final(synced)@.password == old(prepared)@.password,
{
    old(prepared).lemma_holds_a_sound_lock();
}

/// An output is marked with an attempt by presenting a frame of its dissolve that is one second old
/// or older; a frame that was skipped, came earlier or shows anything else leaves the mark.
pub proof fn lemma_a_presented_end_marks_the_output(
    marker: Option<AttemptId>,
    visual: LockVisual,
    outcome: RenderOutcome,
    frame_time: Instant,
    updated: Option<AttemptId>,
)
    requires
        call_ensures(session::presented_marker, (marker, visual, outcome, frame_time), updated),
    ensures
        outcome is Presented && visual is DissolvingCreeper && frame_time.nanos
            >= visual->started_at.nanos + 1_000_000_000 ==> updated == Some(visual->attempt),
        !(outcome is Presented && visual is DissolvingCreeper && frame_time.nanos
            >= visual->started_at.nanos + 1_000_000_000) ==> updated == marker,
{
}

/// All outputs have presented an attempt exactly if there is one and none lacks its mark.
pub proof fn lemma_one_missing_mark_holds_back(
    markers: &[Option<AttemptId>],
    attempt: AttemptId,
    presented: bool,
    place: int,
)
    requires
        call_ensures(session::all_outputs_presented, (markers, attempt), presented),
        0 <= place < markers@.len(),
    ensures
        markers@[place] != Some(attempt) ==> !presented,
        (forall|i: int| 0 <= i < markers@.len() ==> #[trigger] markers@[i] == Some(attempt))
            ==> presented,
{
}

/// The frames of a module count only while nothing of the lock hides it; those of the lock's own
/// scene always count. Torches move while their light converges, the creeper for half a second, the
/// dissolve always, and nothing else moves.
pub proof fn lemma_what_keeps_the_outputs_drawing(
    visual: LockVisual,
    module_continuous: bool,
    converging: bool,
    frame_time: Instant,
    overlay: bool,
    required: bool,
)
    requires
        call_ensures(
            session::overlay_wants_continuous_frames,
            (visual, converging, frame_time),
            overlay,
        ),
        call_ensures(
            session::continuous_frame_required,
            (visual, module_continuous, overlay),
            required,
        ),
    ensures
        visual is Hidden ==> !overlay && required == module_continuous,
        visual is Torch ==> overlay == converging && required == converging,
        visual is Creeper ==> (required <==> frame_time.nanos
            < visual->Creeper_approach_started_at.nanos + 500_000_000),
        visual is DissolvingCreeper ==> required,
        visual is FatalBlack ==> !required,
        overlay ==> required,
{
}

/// The next wake-up is the nearer of the lock's deadline and the switch of the module, and the
/// switch counts only while the lock draws. While the compositor's answer to the unlock is awaited,
/// the loop wakes up after sixteen milliseconds.
pub proof fn lemma_the_loop_wakes_up_in_time(
    awake: LockSession,
    now: Instant,
    switch: Option<Instant>,
    wakeup: Option<Instant>,
    usable: bool,
)
    requires
        awake.wf(),
        now.nanos + 16_000_000 <= LAST_INSTANT_NANOS,
        call_ensures(LockSession::next_wakeup, (&awake, now, switch), wakeup),
        call_ensures(LockSession::can_use_lock_surfaces, (&awake,), usable),
    ensures
        usable && switch is Some ==> wakeup is Some && wakeup->0.nanos <= switch->0.nanos,
        awake@.lock.phase is UnlockRequested && !usable ==> wakeup == Some(
            lock::later_by(now, 16_000_000),
        ),
        awake@.lock.phase is AuthFailed && awake@.lock.phase->retry_after.nanos > now.nanos
            ==> wakeup is Some && wakeup->0.nanos <= awake@.lock.phase->retry_after.nanos,
        awake@.lock.phase is AuthFailed && switch is None && awake@.lock.phase->retry_after.nanos
            > now.nanos ==> wakeup == Some(awake@.lock.phase->retry_after),
        awake@.lock.phase is Fatal || awake@.lock.phase is Finished ==> wakeup is None,
        wakeup is Some ==> wakeup->0.nanos > now.nanos || wakeup == switch,
{
    awake.lemma_holds_a_sound_lock();
}

/// A new session waits for the compositor with the password it is given, and shows nothing. The
/// confirmation opens the input and is drawn, once.
pub proof fn lemma_a_session_starts_with_the_confirmation(
    password: LockedSecret,
    fresh: LockSession,
    locked: &mut LockSession,
    again: &mut LockSession,
    now: Instant,
    entered: bool,
    entered_again: bool,
    editable_before: bool,
    editable: bool,
    shown: LockVisual,
    accepts: bool,
)
    requires
        password.wf(),
        call_ensures(LockSession::new, (password,), fresh),
        call_ensures(LockSession::can_edit, (&fresh,), editable_before),
        call_ensures(LockSession::visual, (&fresh, now), shown),
        *old(locked) == fresh,
        call_ensures(LockSession::compositor_locked, (locked,), entered),
        call_ensures(LockSession::can_edit, (&*final(locked),), editable),
        call_ensures(LockSession::accepts_new_outputs, (&*final(locked),), accepts),
        *old(again) == *final(locked),
        call_ensures(LockSession::compositor_locked, (again,), entered_again),
    ensures
        fresh@.password == password@,
        !fresh@.redraw_all && !fresh@.fatal_disconnect,
        !editable_before,
        shown is Hidden,
        entered && editable && accepts,
        final(locked)@.redraw_all,
        final(locked)@.password == password@,
        !entered_again && final(again)@ == final(locked)@,
{
}

/// When the compositor ends the lock the password is forgotten, and a lock that was confirmed drops
/// the connection behind a black screen.
pub proof fn lemma_the_end_of_the_lock_forgets_the_password(
    ended: &mut LockSession,
    now: Instant,
    was_locked: bool,
    shown: LockVisual,
)
    requires
        old(ended).wf(),
        !old(ended)@.fatal_disconnect,
        call_ensures(LockSession::compositor_finished, (ended,), was_locked),
        call_ensures(LockSession::visual, (&*final(ended), now), shown),
    ensures
        final(ended)@.password.len() == 0,
        was_locked == old(ended)@.lock.compositor_confirmed,
        final(ended)@.fatal_disconnect == was_locked,
        was_locked <==> shown is FatalBlack,
        !was_locked ==> shown is Hidden,
{
}

/// Of a password that is forgotten no byte is left in its memory, and of one that is kept there are
/// its own bytes and nothing behind them.
pub proof fn lemma_a_forgotten_password_leaves_no_byte(
    kept: LockSession,
    forgotten: &mut LockSession,
    mapping: &[u8],
    left: &[u8],
    place: int,
)
    requires
        kept.wf(),
        call_ensures(LockSession::password_mapping, (&kept,), mapping),
        old(forgotten).wf(),
        call_ensures(LockSession::fault, (forgotten,), ()),
        call_ensures(LockSession::password_mapping, (&*final(forgotten),), left),
        0 <= place,
    ensures
        mapping@.len() >= 512 && left@.len() >= 512,
        place < utf8::encode_utf8(kept@.password).len() ==> mapping@[place] == utf8::encode_utf8(
            kept@.password,
        )[place],
        utf8::encode_utf8(kept@.password).len() <= place < mapping@.len() ==> mapping@[place] == 0,
        place < left@.len() ==> left@[place] == 0,
{
    let bytes = utf8::encode_utf8(kept@.password);
    if place < bytes.len() {
        assert(mapping@.take(bytes.len() as int)[place] == mapping@[place]);
    }
    assert(final(forgotten)@.password =~= Seq::empty());
}

/// Where no attempt is left to be numbered, nothing is submitted, and the password is forgotten all
/// the same.
pub proof fn lemma_no_attempt_is_left(
    submitted: &mut LockSession,
    empty: LockedSecret,
    now: Instant,
    outcome: SubmitOutcome,
)
    requires
        old(submitted).wf(),
        old(submitted)@.lock.can_edit(),
        old(submitted)@.lock.next_attempt == u64::MAX,
        empty.wf() && empty@.len() == 0,
        call_ensures(
            LockSession::submit_password,
            (submitted, Ok::<LockedSecret, SecretError>(empty), now),
            outcome,
        ),
    ensures
        outcome is NoAttempt,
        final(submitted)@.password.len() == 0,
        final(submitted)@.lock == old(submitted)@.lock,
{
}

/// A worker that goes away after a fault changes nothing any more.
pub proof fn lemma_a_fault_is_not_repeated(faulted: &mut LockSession, closed: &mut LockSession)
    requires
        old(faulted).wf(),
        call_ensures(LockSession::fault, (faulted,), ()),
        *old(closed) == *final(faulted),
        call_ensures(LockSession::handle_worker_closed, (closed,), ()),
    ensures
        final(closed)@ == final(faulted)@,
{
}

/// A session ticks its lock and nothing else of it, and forgets the password exactly where the lock
/// asks for that. It wakes up when its lock has something to do.
pub proof fn lemma_a_session_does_what_its_lock_asks(
    session: &mut LockSession,
    lock: &mut LockState,
    now: Instant,
    cleared: bool,
    switch: Option<Instant>,
    usable: bool,
    awaiting: bool,
    deadline: Option<Instant>,
    counted: Option<Instant>,
    expected: Option<Instant>,
    wakeup: Option<Instant>,
)
    requires
        old(session).wf(),
        old(lock)@ == old(session)@.lock,
        call_ensures(LockSession::tick, (session, now), ()),
        call_ensures(LockState::tick, (lock, now), cleared),
        call_ensures(LockState::can_use_lock_surfaces, (&*final(lock),), usable),
        call_ensures(LockState::awaiting_unlock_sync, (&*final(lock),), awaiting),
        call_ensures(LockState::next_deadline, (&*final(lock), now), deadline),
        counted == if usable {
            switch
        } else {
            None
        },
        call_ensures(schedule::earliest_deadline, (deadline, counted), expected),
        call_ensures(LockSession::next_wakeup, (&*final(session), now, switch), wakeup),
    ensures
        final(session)@.lock == final(lock)@,
        cleared ==> final(session)@.password.len() == 0,
        !cleared ==> final(session)@.password == old(session)@.password,
        !awaiting ==> wakeup == expected,
{
}

} // verus!
