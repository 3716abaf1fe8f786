//! The session lock as the event loop drives it: keys, replies, outputs and the unlock.

use vstd::prelude::*;
use vstd::utf8;

use crate::lock::pam::secret::{LockedSecret, SecretError, MAX_PASSWORD_BYTES};
use crate::lock::state;
use crate::lock::state::{AttemptId, AuthDecision, LockState, LockView, LockVisual};
use crate::lock::worker::{AuthReply, AuthRequest};
use crate::renderer::RenderOutcome;
use crate::schedule;
use crate::schedule::earliest_deadline;
use crate::text::chars_of;
use crate::time::{Duration, Instant};

verus! {

pub const UNLOCK_FLUSH_RETRY: Duration = 16_000_000;

/// The keys that edit the password in another way than by their text.
#[derive(Clone, Copy, Debug, PartialEq, Eq, Structural)]
pub enum Key {
    Enter,
    BackSpace,
    Delete,
    Escape,
    Other,
}

/// What a key press asks of the event loop.
#[derive(Clone, Copy, Debug, PartialEq, Eq, Structural)]
pub struct KeyOutcome {
    pub submit: bool,
    pub repeat_allowed: bool,
}

/// What a submitted password came to.
pub enum SubmitOutcome {
    Ignored,
    NoBuffer,
    NoAttempt,
    Request(AuthRequest),
}

/// The control characters of Unicode.
pub open spec fn is_control(c: char) -> bool {
    c <= '\u{1f}' || '\u{7f}' <= c <= '\u{9f}'
}

/// Text that may become part of a password.
pub open spec fn is_typed_text(text: Seq<char>) -> bool {
    text.len() > 0 && forall|i: int| 0 <= i < text.len() ==> !is_control(#[trigger] text[i])
}

/// The text that a key brings with it.
pub open spec fn text_of(text: Option<&str>) -> Option<Seq<char>> {
    match text {
        Some(text) => Some(text@),
        None => None,
    }
}

/// Whether a secret takes the text.
pub open spec fn fits(password: Seq<char>, text: Seq<char>) -> bool {
    &&& !utf8::encode_utf8(text).contains(0u8)
    &&& utf8::encode_utf8(password).len() + utf8::encode_utf8(text).len() <= MAX_PASSWORD_BYTES
}

/// The contents of a [`LockSession`].
pub struct SessionView {
    pub lock: LockView,
    pub password: Seq<char>,
    pub redraw_all: bool,
    pub last_visual: LockVisual,
    pub fatal_disconnect: bool,
}

impl SessionView {
    pub open spec fn edited(self, password: Seq<char>, now: Instant, choice: int) -> SessionView {
        SessionView { lock: self.lock.edited(now, choice), password, redraw_all: true, ..self }
    }

    /// The session after a key, where `choice` is the torch flip that an edit draws.
    pub open spec fn key_handled(
        self,
        key: Key,
        text: Option<Seq<char>>,
        repeated: bool,
        now: Instant,
        choice: int,
    ) -> SessionView {
        if key is Enter && !repeated {
            self
        } else if key is BackSpace || (key is Delete && !repeated) {
            if self.password.len() > 0 {
                self.edited(self.password.drop_last(), now, choice)
            } else {
                self
            }
        } else if key is Escape && !repeated {
            SessionView {
                lock: self.lock.cancelled(now),
                password: Seq::empty(),
                redraw_all: true,
                ..self
            }
        } else {
            match text {
                Some(text) if is_typed_text(text) && fits(self.password, text) => self.edited(
                    self.password + text,
                    now,
                    choice,
                ),
                _ => self,
            }
        }
    }

    /// A fault of the lock's own machinery: nothing is shown, nothing can be typed, and the
    /// connection is dropped without unlocking.
    pub open spec fn faulted(self) -> SessionView {
        SessionView {
            lock: self.lock.fatal(),
            password: Seq::empty(),
            fatal_disconnect: true,
            ..self
        }
    }

    pub open spec fn disconnected(self) -> SessionView {
        SessionView { lock: self.lock.fatal(), fatal_disconnect: true, ..self }
    }

    pub open spec fn ticked(self, now: Instant) -> SessionView {
        let lock = self.lock.ticked(now);
        let changed = self.lock.visual() != lock.visual() || lock.visual() != self.last_visual;
        SessionView {
            lock,
            password: if self.lock.flashed(now).idle_expired(now) {
                Seq::empty()
            } else {
                self.password
            },
            redraw_all: self.redraw_all || changed,
            last_visual: if changed {
                lock.visual()
            } else {
                self.last_visual
            },
            ..self
        }
    }
}

/// Whether every output, and there is one, has presented the end of the attempt's dissolve.
pub open spec fn presented_everywhere(markers: Seq<Option<AttemptId>>, attempt: AttemptId) -> bool {
    markers.len() > 0 && forall|i: int|
        0 <= i < markers.len() ==> #[trigger] markers[i] == Some(attempt)
}

/// A session lock: its state, the password as typed so far, and what the event loop owes it.
pub struct LockSession {
    state: LockState,
    password: LockedSecret,
    redraw_all: bool,
    last_visual: LockVisual,
    fatal_disconnect: bool,
}

impl View for LockSession {
    type V = SessionView;

    closed spec fn view(&self) -> SessionView {
        SessionView {
            lock: self.state@,
            password: self.password@,
            redraw_all: self.redraw_all,
            last_visual: self.last_visual,
            fatal_disconnect: self.fatal_disconnect,
        }
    }
}

impl LockSession {
    pub closed spec fn wf(&self) -> bool {
        self.state@.wf() && self.password.wf()
    }

    /// The lock of a session is one that a lock can come to.
    pub proof fn lemma_holds_a_sound_lock(self)
        requires
            self.wf(),
        ensures
            self@.lock.wf(),
    {
    }

    pub fn new(password: LockedSecret) -> (session: LockSession)
        requires
            password.wf(),
        ensures
            session.wf(),
            session@ == (SessionView {
                lock: LockView::initial(),
                password: password@,
                redraw_all: false,
                last_visual: LockVisual::Hidden,
                fatal_disconnect: false,
            }),
    {
        LockSession {
            state: LockState::new(),
            password,
            redraw_all: false,
            last_visual: LockVisual::Hidden,
            fatal_disconnect: false,
        }
    }

    pub fn needs_redraw(&self) -> (needed: bool)
        ensures
            needed == self@.redraw_all,
    {
        self.redraw_all
    }

    pub fn must_disconnect(&self) -> (disconnect: bool)
        ensures
            disconnect == self@.fatal_disconnect,
    {
        self.fatal_disconnect
    }

    pub fn can_edit(&self) -> (editable: bool)
        ensures
            editable == self@.lock.can_edit(),
    {
        self.state.can_edit()
    }

    pub fn can_use_lock_surfaces(&self) -> (usable: bool)
        ensures
            usable == self@.lock.can_use_lock_surfaces(),
    {
        self.state.can_use_lock_surfaces()
    }

    pub fn accepts_new_outputs(&self) -> (accepts: bool)
        ensures
            accepts == (self@.lock.can_use_lock_surfaces() && !(self@.lock.phase is UnlockRequested)),
    {
        self.state.accepts_new_outputs()
    }

    pub fn visual(&self, now: Instant) -> (visual: LockVisual)
        ensures
            visual == self@.lock.visual(),
    {
        self.state.visual(now)
    }

    /// The bytes that the password occupies, for whoever guards the memory: its text, then zeros.
    pub fn password_mapping(&self) -> (bytes: &[u8])
        requires
            self.wf(),
        ensures
            utf8::encode_utf8(self@.password).len() <= MAX_PASSWORD_BYTES < bytes@.len(),
            bytes@.take(utf8::encode_utf8(self@.password).len() as int) == utf8::encode_utf8(
                self@.password,
            ),
            forall|i: int|
                utf8::encode_utf8(self@.password).len() <= i < bytes@.len() ==> bytes@[i] == 0,
    {
        proof {
            self.password.lemma_storage_holds_only_the_text();
        }
        self.password.mapping()
    }

    /// The outputs have changed, so all of them are drawn again.
    pub fn outputs_changed(&mut self)
        requires
            old(self).wf(),
        ensures
            final(self).wf(),
            final(self)@ == (SessionView { redraw_all: true, ..old(self)@ }),
    {
        self.redraw_all = true;
    }

    pub fn redrawn(&mut self)
        requires
            old(self).wf(),
        ensures
            final(self).wf(),
            final(self)@ == (SessionView { redraw_all: false, ..old(self)@ }),
    {
        self.redraw_all = false;
    }

    /// Handles a key, pressed or repeated. `repeat_allowed` tells whether the keyboard's repeats
    /// belong to a press that was made while the input was open.
    pub fn key_event(
        &mut self,
        key: Key,
        text: Option<&str>,
        repeated: bool,
        repeat_allowed: bool,
        now: Instant,
    ) -> (outcome: KeyOutcome)
        requires
            old(self).wf(),
        ensures
            final(self).wf(),
            !old(self)@.lock.can_edit() || (repeated && !repeat_allowed) ==> {
                &&& final(self)@ == old(self)@
                &&& outcome == (KeyOutcome { submit: false, repeat_allowed })
            },
            old(self)@.lock.can_edit() && (!repeated || repeat_allowed) ==> {
                &&& outcome == (KeyOutcome { submit: key is Enter && !repeated, repeat_allowed: true })
                &&& exists|choice: int|
                    0 <= choice < state::valid_flips(old(self)@.lock.torch_mask).len()
                        && final(self)@ == #[trigger] old(self)@.key_handled(
                        key,
                        text_of(text),
                        repeated,
                        now,
                        choice,
                    )
            },
    {
        if !self.state.can_edit() || (repeated && !repeat_allowed) {
            return KeyOutcome { submit: false, repeat_allowed };
        }
        let ghost before = self@;
        let ghost typed = text_of(text);
        proof {
            state::lemma_valid_flips(before.lock.torch_mask);
            assert(before.key_handled(key, typed, repeated, now, 0) == before.key_handled(
                key,
                typed,
                repeated,
                now,
                0,
            ));
        }
        if key == Key::Enter && !repeated {
            return KeyOutcome { submit: true, repeat_allowed: true };
        }
        if key == Key::BackSpace || (key == Key::Delete && !repeated) {
            if self.password.delete_last_scalar() {
                self.note_edit(now);
                proof {
                    let choice = choose|choice: int|
                        0 <= choice < state::valid_flips(before.lock.torch_mask).len()
                            && self@.lock == #[trigger] before.lock.edited(now, choice);
                    assert(self@ == before.key_handled(key, typed, repeated, now, choice));
                }
            }
        } else if key == Key::Escape && !repeated {
            self.password.clear();
            self.state.note_cancel(now);
            self.redraw_all = true;
            assert(self@ == before.key_handled(key, typed, repeated, now, 0));
        } else if let Some(text) = text {
            if is_typed(text) {
                if self.password.append(text).is_ok() {
                    self.note_edit(now);
                    proof {
                        let choice = choose|choice: int|
                            0 <= choice < state::valid_flips(before.lock.torch_mask).len()
                                && self@.lock == #[trigger] before.lock.edited(now, choice);
                        assert(self@ == before.key_handled(key, typed, repeated, now, choice));
                    }
                }
            }
        }
        KeyOutcome { submit: false, repeat_allowed: true }
    }

    fn note_edit(&mut self, now: Instant)
        requires
            old(self).wf(),
        ensures
            final(self).wf(),
            exists|choice: int|
                0 <= choice < state::valid_flips(old(self)@.lock.torch_mask).len()
                    && final(self)@.lock == #[trigger] old(self)@.lock.edited(now, choice),
            final(self)@ == (SessionView {
                lock: final(self)@.lock,
                redraw_all: true,
                ..old(self)@
            }),
    {
        self.state.note_edit(now);
        self.redraw_all = true;
    }

    /// Takes the password out for authentication and puts an empty one in its place.
    pub fn submit_password(
        &mut self,
        replacement: Result<LockedSecret, SecretError>,
        now: Instant,
    ) -> (outcome: SubmitOutcome)
        requires
            old(self).wf(),
            replacement matches Ok(secret) ==> secret.wf() && secret@.len() == 0,
        ensures
            final(self).wf(),
            if !old(self)@.lock.can_edit() {
                outcome is Ignored && final(self)@ == old(self)@
            } else if replacement is Err {
                outcome is NoBuffer && final(self)@ == old(self)@.faulted()
            } else {
                let submitted = SessionView {
                    lock: old(self)@.lock.authentication_begun(now),
                    password: Seq::empty(),
                    ..old(self)@
                };
                &&& final(self)@ == submitted
                &&& if old(self)@.lock.next_attempt < u64::MAX {
                    &&& outcome matches SubmitOutcome::Request(request)
                    &&& request.attempt == AttemptId(old(self)@.lock.next_attempt)
                    &&& request.password.wf()
                    &&& request.password@ == old(self)@.password
                } else {
                    outcome is NoAttempt
                }
            },
    {
        if !self.state.can_edit() {
            return SubmitOutcome::Ignored;
        }
        match replacement {
            Err(_) => {
                self.fault();
                SubmitOutcome::NoBuffer
            },
            Ok(empty) => {
                let mut password = empty;
                std::mem::swap(&mut self.password, &mut password);
                assert(self.password@ =~= Seq::empty());
                match self.state.begin_authentication(now) {
                    None => {
                        password.clear();
                        SubmitOutcome::NoAttempt
                    },
                    Some(attempt) => SubmitOutcome::Request(AuthRequest { attempt, password }),
                }
            },
        }
    }

    /// Records whether the worker took the request.
    pub fn request_sent(&mut self, accepted: bool)
        requires
            old(self).wf(),
        ensures
            final(self).wf(),
            final(self)@ == if accepted {
                SessionView { redraw_all: true, ..old(self)@ }
            } else {
                old(self)@.disconnected()
            },
    {
        if accepted {
            self.redraw_all = true;
        } else {
            self.state.enter_fatal();
            self.fatal_disconnect = true;
        }
    }

    /// Hands a reply of the worker to the lock. Returns whether the lock was waiting for it.
    pub fn handle_auth_reply(&mut self, reply: AuthReply, now: Instant) -> (consumed: bool)
        requires
            old(self).wf(),
        ensures
            final(self).wf(),
            consumed == old(self)@.lock.awaits(reply.attempt),
            final(self)@ == if consumed {
                SessionView {
                    lock: old(self)@.lock.answered(reply.attempt, reply.decision, now),
                    redraw_all: true,
                    fatal_disconnect: old(self)@.fatal_disconnect || reply.decision
                        == AuthDecision::SystemFailure,
                    ..old(self)@
                }
            } else {
                old(self)@
            },
    {
        if self.state.authentication_result(reply.attempt, reply.decision, now) {
            self.redraw_all = true;
            if reply.decision == AuthDecision::SystemFailure {
                self.fatal_disconnect = true;
            }
            true
        } else {
            false
        }
    }

    /// The worker is gone, which a lock that still hopes for a reply does not survive.
    pub fn handle_worker_closed(&mut self)
        requires
            old(self).wf(),
        ensures
            final(self).wf(),
            final(self)@ == if old(self)@.lock.phase is Fatal {
                old(self)@
            } else {
                old(self)@.disconnected()
            },
    {
        if !self.state.is_fatal() {
            self.state.enter_fatal();
            self.fatal_disconnect = true;
        }
    }

    pub fn compositor_locked(&mut self) -> (entered: bool)
        requires
            old(self).wf(),
        ensures
            final(self).wf(),
            entered == (old(self)@.lock.phase is LockPending),
            final(self)@ == (SessionView {
                lock: old(self)@.lock.compositor_locked(),
                redraw_all: old(self)@.redraw_all || entered,
                ..old(self)@
            }),
    {
        let entered = self.state.compositor_locked();
        if entered {
            self.redraw_all = true;
        }
        entered
    }

    /// The compositor ended the lock. Returns whether it had confirmed it before; if not, the
    /// program simply fails.
    pub fn compositor_finished(&mut self) -> (was_locked: bool)
        requires
            old(self).wf(),
        ensures
            final(self).wf(),
            was_locked == old(self)@.lock.compositor_confirmed,
            final(self)@ == (SessionView {
                lock: old(self)@.lock.compositor_finished(),
                password: Seq::empty(),
                fatal_disconnect: old(self)@.fatal_disconnect || was_locked,
                ..old(self)@
            }),
    {
        self.password.clear();
        let was_locked = self.state.compositor_finished();
        if was_locked {
            self.fatal_disconnect = true;
        }
        was_locked
    }

    /// A fault while drawing, scheduling or reading keys is never turned into an unlock.
    pub fn fault(&mut self)
        requires
            old(self).wf(),
        ensures
            final(self).wf(),
            final(self)@ == old(self)@.faulted(),
    {
        self.password.clear();
        self.state.enter_fatal();
        self.fatal_disconnect = true;
    }

    pub fn clear_editable_secret(&mut self)
        requires
            old(self).wf(),
        ensures
            final(self).wf(),
            final(self)@ == (SessionView { password: Seq::empty(), ..old(self)@ }),
    {
        self.password.clear();
    }

    /// Advances the lock's deadlines after a round of the event loop.
    pub fn tick(&mut self, now: Instant)
        requires
            old(self).wf(),
        ensures
            final(self).wf(),
            final(self)@ == old(self)@.ticked(now),
    {
        let before = self.state.visual(now);
        if self.state.tick(now) {
            self.password.clear();
        }
        let after = self.state.visual(now);
        if before != after || after != self.last_visual {
            self.redraw_all = true;
            self.last_visual = after;
        }
    }

    /// Prepares the unlock once the dissolve is over and every output has shown its end. The
    /// markers tell which attempt's dissolve each output has shown to its end.
    pub fn prepare_unlock(&mut self, now: Instant, markers: &[Option<AttemptId>]) -> (prepared: bool)
        requires
            old(self).wf(),
        ensures
            final(self).wf(),
            prepared == (old(self)@.lock.dissolve_done(now) && presented_everywhere(
                markers@,
                old(self)@.lock.phase->Authenticated_attempt,
            )),
            final(self)@ == (SessionView {
                lock: old(self)@.lock.unlock_prepared(now, prepared),
                ..old(self)@
            }),
    {
        let ready = match self.state.visual(now).completed_dissolve_attempt(now) {
            Some(attempt) => all_outputs_presented(markers, attempt),
            None => false,
        };
        self.state.prepare_unlock(now, ready)
    }

    /// The one place that permits the unlock request.
    pub fn consume_unlock_gate(&mut self) -> (opened: bool)
        requires
            old(self).wf(),
        ensures
            final(self).wf(),
            opened == old(self)@.lock.gate_open(),
            final(self)@ == (SessionView {
                lock: old(self)@.lock.gate_consumed(),
                ..old(self)@
            }),
    {
        self.state.consume_unlock_gate()
    }

    /// The compositor has processed everything up to the unlock request.
    pub fn unlock_sync_completed(&mut self) -> (exit: bool)
        requires
            old(self).wf(),
        ensures
            final(self).wf(),
            exit == old(self)@.lock.awaiting_sync(),
            final(self)@ == (SessionView {
                lock: old(self)@.lock.sync_completed(),
                ..old(self)@
            }),
    {
        self.state.unlock_sync_completed()
    }

    /// When the event loop has to wake up next.
    pub fn next_wakeup(&self, now: Instant, next_module_switch: Option<Instant>) -> (wakeup: Option<
        Instant,
    >)
        ensures
            wakeup == schedule::earliest_of(
                if self@.lock.awaiting_sync() {
                    now.plus(UNLOCK_FLUSH_RETRY)
                } else {
                    match self@.lock.deadline() {
                        Some(at) if at.nanos > now.nanos => Some(at),
                        _ => None,
                    }
                },
                if self@.lock.can_use_lock_surfaces() {
                    next_module_switch
                } else {
                    None
                },
            ),
    {
        let lock_deadline = if self.state.awaiting_unlock_sync() {
            now.checked_add(UNLOCK_FLUSH_RETRY)
        } else {
            self.state.next_deadline(now)
        };
        let module_deadline = if self.state.can_use_lock_surfaces() {
            next_module_switch
        } else {
            None
        };
        earliest_deadline(lock_deadline, module_deadline)
    }
}

fn is_typed(text: &str) -> (typed: bool)
    ensures
        typed == is_typed_text(text@),
{
    let chars = chars_of(text);
    let mut index: usize = 0;
    while index < chars.len()
        invariant
            index <= chars@.len(),
            chars@ == text@,
            forall|i: int| 0 <= i < index ==> !is_control(#[trigger] text@[i]),
        decreases chars@.len() - index,
    {
        let c = chars[index];
        if c <= '\u{1f}' || ('\u{7f}' <= c && c <= '\u{9f}') {
            assert(is_control(text@[index as int]));
            return false;
        }
        index = index + 1;
    }
    chars.len() > 0
}

/// Whether frames have to follow each other. Opaque lock scenes own their frames: a module that
/// they hide does not keep the outputs drawing.
pub fn continuous_frame_required(
    visual: LockVisual,
    module_continuous: bool,
    overlay_continuous: bool,
) -> (required: bool)
    ensures
        required == (overlay_continuous || (visual is Hidden && module_continuous)),
{
    match visual {
        LockVisual::Hidden => module_continuous || overlay_continuous,
        _ => overlay_continuous,
    }
}

/// Whether the lock's own scene moves: the torches while their light still converges, any other
/// scene by its own time.
pub fn overlay_wants_continuous_frames(
    visual: LockVisual,
    torch_converging: bool,
    frame_time: Instant,
) -> (wanted: bool)
    ensures
        wanted == match visual {
            LockVisual::Torch { .. } => torch_converging,
            LockVisual::Creeper { approach_started_at, .. } => frame_time.since(approach_started_at)
                < state::CREEPER_APPROACH_DURATION,
            LockVisual::DissolvingCreeper { .. } => true,
            _ => false,
        },
{
    match visual {
        LockVisual::Torch { .. } => torch_converging,
        _ => visual.wants_continuous_frames(frame_time),
    }
}

pub fn all_outputs_presented(markers: &[Option<AttemptId>], attempt: AttemptId) -> (presented: bool)
    ensures
        presented == presented_everywhere(markers@, attempt),
{
    let mut index: usize = 0;
    while index < markers.len()
        invariant
            index <= markers@.len(),
            forall|i: int| 0 <= i < index ==> #[trigger] markers@[i] == Some(attempt),
        decreases markers@.len() - index,
    {
        match markers[index] {
            Some(presented) => if presented != attempt {
                return false;
            },
            None => return false,
        }
        index = index + 1;
    }
    markers.len() > 0
}

/// The marker of an output after a frame: a frame that was presented, and drawn at the end of a
/// dissolve, marks its attempt.
pub fn presented_marker(
    marker: Option<AttemptId>,
    visual: LockVisual,
    outcome: RenderOutcome,
    frame_time: Instant,
) -> (updated: Option<AttemptId>)
    ensures
        updated == match visual {
            LockVisual::DissolvingCreeper { attempt, started_at, .. } if outcome is Presented
                && frame_time.since(started_at) >= state::DISSOLVE_DURATION => Some(attempt),
            _ => marker,
        },
{
    if outcome == RenderOutcome::Presented {
        match visual.completed_dissolve_attempt(frame_time) {
            Some(attempt) => Some(attempt),
            None => marker,
        }
    } else {
        marker
    }
}

/// A fault, a vanished worker or a failed request leaves the unlock gate closed for good.
pub proof fn lemma_faults_never_unlock(session: SessionView)
    ensures
        !session.faulted().lock.gate_open(),
        !session.disconnected().lock.gate_open(),
        session.faulted().lock.phase is Fatal,
        session.disconnected().lock.phase is Fatal,
        session.faulted().password.len() == 0,
{
}

/// An output that appears after the dissolve was shown, or that still shows an earlier attempt,
/// holds the unlock back.
pub proof fn lemma_every_output_must_present(
    markers: Seq<Option<AttemptId>>,
    marker: Option<AttemptId>,
    attempt: AttemptId,
)
    ensures
        presented_everywhere(markers.push(marker), attempt) <==> marker == Some(attempt) && (
        markers.len() == 0 || presented_everywhere(markers, attempt)),
        !presented_everywhere(Seq::empty(), attempt),
{
    let more = markers.push(marker);
    if presented_everywhere(more, attempt) {
        assert(more[markers.len() as int] == Some(attempt));
        assert forall|i: int| 0 <= i < markers.len() implies #[trigger] markers[i] == Some(
            attempt,
        ) by {
            assert(more[i] == markers[i]);
        }
    }
}

} // verus!
