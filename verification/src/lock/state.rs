//! The lock and authentication state. Wayland, PAM, channels and GPU objects stay
//! outside this module.

use vstd::prelude::*;

use crate::random;
use crate::time::{seconds, Duration, Instant, LAST_INSTANT_NANOS};

verus! {

pub const CREEPER_APPROACH_DURATION: Duration = 500_000_000;

pub const DISSOLVE_DURATION: Duration = 1_000_000_000;

pub const IDLE_CLEAR_DURATION: Duration = 10_000_000_000;

pub const ESC_FLASH_STEP_DURATION: Duration = 100_000_000;

pub const ESC_FLASH_STEPS: u8 = 4;

pub const REDSTONE_BIT: u8 = 0b0001;

pub const COPPER_BIT: u8 = 0b0010;

pub const SOUL_BIT: u8 = 0b0100;

pub const TORCH_BIT: u8 = 0b1000;

pub const ALL_TORCHES_MASK: u8 = 0b1111;

/// Names one authentication attempt.
#[derive(Clone, Copy, Debug, PartialEq, Eq, Hash, Structural)]
pub struct AttemptId(pub u64);

impl AttemptId {
    pub fn new(value: u64) -> (id: AttemptId)
        ensures
            id.0 == value,
    {
        AttemptId(value)
    }
}

#[derive(Clone, Copy, Debug, PartialEq, Eq, Structural)]
pub enum AuthDecision {
    Authenticated,
    Denied,
    SystemFailure,
}

/// What the lock draws over the wallpaper.
#[derive(Clone, Copy, Debug, PartialEq, Eq, Structural)]
pub enum LockVisual {
    Hidden,
    Torch { mask: u8, state_id: u64 },
    Creeper { approach_started_at: Instant, red: bool },
    DissolvingCreeper { attempt: AttemptId, approach_started_at: Instant, started_at: Instant },
    FatalBlack,
}

impl LockVisual {
    /// Whether the visual still moves at `now`. The dissolve keeps asking, so that its
    /// terminal black frame is retried until every output has presented it.
    pub fn wants_continuous_frames(self, now: Instant) -> (wanted: bool)
        ensures
            wanted == match self {
                LockVisual::Creeper { approach_started_at, .. } => now.since(approach_started_at)
                    < CREEPER_APPROACH_DURATION,
                LockVisual::DissolvingCreeper { .. } => true,
                _ => false,
            },
    {
        match self {
            LockVisual::Creeper { approach_started_at, .. } => now.saturating_duration_since(
                approach_started_at,
            ) < CREEPER_APPROACH_DURATION,
            LockVisual::DissolvingCreeper { .. } => true,
            _ => false,
        }
    }

    /// The attempt whose dissolve has run its full length at `now`.
    pub fn completed_dissolve_attempt(self, now: Instant) -> (completed: Option<AttemptId>)
        ensures
            completed == match self {
                LockVisual::DissolvingCreeper { attempt, started_at, .. } if now.since(started_at)
                    >= DISSOLVE_DURATION => Some(attempt),
                _ => None,
            },
    {
        match self {
            LockVisual::DissolvingCreeper { attempt, started_at, .. } => {
                if now.saturating_duration_since(started_at) >= DISSOLVE_DURATION {
                    Some(attempt)
                } else {
                    None
                }
            },
            _ => None,
        }
    }
}

#[derive(Clone, Copy, Debug, PartialEq, Eq, Structural)]
pub enum Phase {
    LockPending,
    Idle,
    Authenticating { attempt: AttemptId, approach_started_at: Instant },
    AuthFailed { retry_after: Instant, approach_started_at: Instant },
    Authenticated { attempt: AttemptId, approach_started_at: Instant, started_at: Instant },
    UnlockRequested,
    Finished,
    Fatal,
}

/// The on/off/on/off torch sequence that answers a cancelled entry.
#[derive(Clone, Copy, Debug, PartialEq, Eq, Structural)]
pub struct EscFlash {
    pub step: u8,
    pub next_step_at: Instant,
}

/// The one-bit flips of a torch mask, lowest bit first, without the flips that would
/// light every torch or none.
pub open spec fn valid_flips(mask: u8) -> Seq<u8> {
    seq![mask ^ 1u8, mask ^ 2u8, mask ^ 4u8, mask ^ 8u8].filter(is_partial_mask())
}

pub open spec fn is_partial_mask() -> spec_fn(u8) -> bool {
    |mask: u8| mask != 0 && mask != ALL_TORCHES_MASK
}

/// The contents of a [`LockState`].
pub struct LockView {
    pub phase: Phase,
    pub next_attempt: u64,
    pub failures: u8,
    pub torch_mask: u8,
    pub torch_visible: bool,
    pub torch_state_id: u64,
    pub esc_flash: Option<EscFlash>,
    pub last_input_at: Option<Instant>,
    pub compositor_confirmed: bool,
    pub unlock_called: bool,
}

impl LockView {
    pub open spec fn initial() -> LockView {
        LockView {
            phase: Phase::LockPending,
            next_attempt: 1,
            failures: 0,
            torch_mask: ALL_TORCHES_MASK,
            torch_visible: false,
            torch_state_id: 0,
            esc_flash: None,
            last_input_at: None,
            compositor_confirmed: false,
            unlock_called: false,
        }
    }

    /// Every state that a lock passes through is of this form.
    pub open spec fn wf(self) -> bool {
        &&& self.torch_mask <= ALL_TORCHES_MASK
        &&& self.next_attempt >= 1
        &&& self.esc_flash matches Some(flash) ==> {
            &&& flash.step < ESC_FLASH_STEPS
            &&& self.phase is Idle
            &&& self.torch_visible
            &&& self.last_input_at is None
        }
        &&& self.torch_visible ==> self.phase is Idle
        &&& self.last_input_at is Some ==> self.torch_visible
        &&& self.phase is LockPending ==> !self.compositor_confirmed
        &&& match self.phase {
            Phase::Idle
            | Phase::AuthFailed { .. }
            | Phase::UnlockRequested => self.compositor_confirmed,
            Phase::Authenticating { attempt, .. }
            | Phase::Authenticated { attempt, .. } => self.compositor_confirmed && attempt.0
                < self.next_attempt,
            _ => true,
        }
        &&& self.unlock_called ==> {
            ||| self.phase is UnlockRequested
            ||| self.phase is Finished
            ||| self.phase is Fatal
        }
    }

    pub open spec fn can_edit(self) -> bool {
        self.phase is Idle && self.compositor_confirmed && self.esc_flash is None
    }

    pub open spec fn can_use_lock_surfaces(self) -> bool {
        !self.unlock_called && !(self.phase is Finished) && !(self.phase is Fatal)
    }

    /// Whether the one call that unlocks the session may be made now.
    pub open spec fn gate_open(self) -> bool {
        self.compositor_confirmed && !self.unlock_called && self.phase is UnlockRequested
    }

    pub open spec fn awaiting_sync(self) -> bool {
        self.phase is UnlockRequested && self.unlock_called
    }

    pub open spec fn dissolve_done(self, now: Instant) -> bool {
        self.phase matches Phase::Authenticated { started_at, .. } && now.since(started_at)
            >= DISSOLVE_DURATION
    }

    pub open spec fn torches_hidden(self) -> LockView {
        LockView { torch_visible: false, esc_flash: None, last_input_at: None, ..self }
    }

    pub open spec fn torch_changes(self, count: int) -> LockView {
        LockView { torch_state_id: wrapped(self.torch_state_id + count), ..self }
    }

    pub open spec fn fatal(self) -> LockView {
        LockView { phase: Phase::Fatal, ..self.torches_hidden() }
    }

    pub open spec fn compositor_locked(self) -> LockView {
        if self.phase is LockPending {
            LockView { phase: Phase::Idle, compositor_confirmed: true, ..self }
        } else {
            self
        }
    }

    pub open spec fn edited(self, now: Instant, choice: int) -> LockView {
        if self.can_edit() {
            LockView {
                torch_mask: valid_flips(self.torch_mask)[choice],
                torch_visible: true,
                last_input_at: Some(now),
                ..self.torch_changes(1)
            }
        } else {
            self
        }
    }

    pub open spec fn cancelled(self, now: Instant) -> LockView {
        if !self.can_edit() {
            self
        } else {
            let lit = LockView {
                torch_mask: ALL_TORCHES_MASK,
                torch_visible: true,
                last_input_at: None,
                ..self
            };
            match now.plus(ESC_FLASH_STEP_DURATION) {
                None => lit.fatal(),
                Some(next_step_at) => LockView {
                    esc_flash: Some(EscFlash { step: 0, next_step_at }),
                    ..lit.torch_changes(1)
                },
            }
        }
    }

    pub open spec fn authentication_begun(self, now: Instant) -> LockView {
        if self.can_edit() && self.next_attempt < u64::MAX {
            LockView {
                phase: Phase::Authenticating {
                    attempt: AttemptId(self.next_attempt),
                    approach_started_at: now,
                },
                next_attempt: (self.next_attempt + 1) as u64,
                ..self.torches_hidden()
            }
        } else {
            self
        }
    }

    pub open spec fn awaits(self, attempt: AttemptId) -> bool {
        self.phase matches Phase::Authenticating { attempt: current, .. } && current == attempt
    }

    pub open spec fn answered(
        self,
        attempt: AttemptId,
        decision: AuthDecision,
        now: Instant,
    ) -> LockView {
        if !self.awaits(attempt) {
            self
        } else {
            let approach_started_at = self.phase->Authenticating_approach_started_at;
            match decision {
                AuthDecision::Authenticated => LockView {
                    phase: Phase::Authenticated { attempt, approach_started_at, started_at: now },
                    ..self
                },
                AuthDecision::Denied => {
                    let counted = LockView { failures: one_more_failure(self.failures), ..self };
                    match now.plus(backoff(counted.failures)) {
                        None => counted.fatal(),
                        Some(retry_after) => LockView {
                            phase: Phase::AuthFailed { retry_after, approach_started_at },
                            ..counted
                        },
                    }
                },
                AuthDecision::SystemFailure => self.fatal(),
            }
        }
    }

    /// The flash after every step that is due at `now`. It ends, and the idle period
    /// begins, at the exact time of its last step, however late `now` is.
    pub open spec fn flashed(self, now: Instant) -> LockView {
        match self.esc_flash {
            Some(flash) if now.nanos >= flash.next_step_at.nanos => {
                let due = (now.nanos - flash.next_step_at.nanos) as int
                    / ESC_FLASH_STEP_DURATION as int + 1;
                let left = ESC_FLASH_STEPS - flash.step;
                let room = flash_room(flash.next_step_at);
                if room + 1 <= due && room + 1 < left {
                    LockView {
                        torch_mask: flash_mask(flash.step + room + 1),
                        ..self.torch_changes(room + 1)
                    }.fatal()
                } else if due < left {
                    LockView {
                        torch_mask: flash_mask(flash.step + due),
                        esc_flash: Some(flash_after(flash, due)),
                        ..self.torch_changes(due)
                    }
                } else {
                    LockView {
                        torch_mask: ALL_TORCHES_MASK,
                        esc_flash: None,
                        last_input_at: Some(flash_after(flash, left - 1).next_step_at),
                        ..self.torch_changes(left)
                    }
                }
            },
            _ => self,
        }
    }

    pub open spec fn idle_expired(self, now: Instant) -> bool {
        &&& self.phase is Idle
        &&& self.esc_flash is None
        &&& self.last_input_at matches Some(last) && now.since(last) >= IDLE_CLEAR_DURATION
    }

    pub open spec fn ticked(self, now: Instant) -> LockView {
        let flashed = self.flashed(now);
        if flashed.idle_expired(now) {
            flashed.torches_hidden()
        } else {
            match flashed.phase {
                Phase::AuthFailed { retry_after, .. } if now.nanos >= retry_after.nanos => LockView {
                    phase: Phase::Idle,
                    torch_mask: ALL_TORCHES_MASK,
                    torch_visible: true,
                    last_input_at: Some(retry_after),
                    ..flashed.torch_changes(1)
                },
                _ => flashed,
            }
        }
    }

    pub open spec fn deadline(self) -> Option<Instant> {
        match self.phase {
            Phase::Idle => match (self.esc_flash, self.last_input_at) {
                (Some(flash), _) => Some(flash.next_step_at),
                (None, Some(last)) => last.plus(IDLE_CLEAR_DURATION),
                (None, None) => None,
            },
            Phase::AuthFailed { retry_after, .. } => Some(retry_after),
            Phase::Authenticated { started_at, .. } => started_at.plus(DISSOLVE_DURATION),
            _ => None,
        }
    }

    pub open spec fn visual(self) -> LockVisual {
        match self.phase {
            Phase::Idle if self.torch_visible => LockVisual::Torch {
                mask: self.torch_mask,
                state_id: self.torch_state_id,
            },
            Phase::Authenticating { approach_started_at, .. } => LockVisual::Creeper {
                approach_started_at,
                red: false,
            },
            Phase::AuthFailed { approach_started_at, .. } => LockVisual::Creeper {
                approach_started_at,
                red: true,
            },
            Phase::Authenticated {
                attempt,
                approach_started_at,
                started_at,
            } => LockVisual::DissolvingCreeper { attempt, approach_started_at, started_at },
            Phase::Fatal => LockVisual::FatalBlack,
            _ => LockVisual::Hidden,
        }
    }

    pub open spec fn unlock_prepared(self, now: Instant, all_outputs_presented: bool) -> LockView {
        if all_outputs_presented && self.dissolve_done(now) {
            LockView { phase: Phase::UnlockRequested, ..self }
        } else {
            self
        }
    }

    pub open spec fn gate_consumed(self) -> LockView {
        LockView { unlock_called: self.unlock_called || self.gate_open(), ..self }
    }

    pub open spec fn sync_completed(self) -> LockView {
        if self.awaiting_sync() {
            LockView { phase: Phase::Finished, ..self }
        } else {
            self
        }
    }

    pub open spec fn compositor_finished(self) -> LockView {
        LockView {
            phase: if self.compositor_confirmed { Phase::Fatal } else { Phase::Finished },
            ..self.torches_hidden()
        }
    }
}

pub open spec fn wrapped(value: int) -> u64 {
    (value % 0x1_0000_0000_0000_0000) as u64
}

pub open spec fn one_more_failure(failures: u8) -> u8 {
    if failures < u8::MAX {
        (failures + 1) as u8
    } else {
        failures
    }
}

/// How long input stays closed after the given number of denials in a row.
pub open spec fn backoff(failures: u8) -> Duration {
    if failures <= 1 {
        1_000_000_000
    } else if failures == 2 {
        2_000_000_000
    } else if failures == 3 {
        4_000_000_000
    } else {
        8_000_000_000
    }
}

pub open spec fn flash_mask(step: int) -> u8 {
    if step % 2 == 0 {
        ALL_TORCHES_MASK
    } else {
        0
    }
}

pub open spec fn flash_after(flash: EscFlash, steps: int) -> EscFlash {
    EscFlash {
        step: (flash.step + steps) as u8,
        next_step_at: Instant {
            nanos: (flash.next_step_at.nanos + steps * ESC_FLASH_STEP_DURATION) as u128,
        },
    }
}

/// How many further steps the clock can name after `at`.
pub open spec fn flash_room(at: Instant) -> int {
    if at.nanos <= LAST_INSTANT_NANOS {
        (LAST_INSTANT_NANOS - at.nanos) as int / ESC_FLASH_STEP_DURATION as int
    } else {
        0
    }
}

/// The lock and authentication state of one session lock.
pub struct LockState {
    phase: Phase,
    next_attempt: u64,
    failures: u8,
    torch_mask: u8,
    torch_visible: bool,
    torch_state_id: u64,
    esc_flash: Option<EscFlash>,
    last_input_at: Option<Instant>,
    compositor_confirmed: bool,
    unlock_called: bool,
}

impl View for LockState {
    type V = LockView;

    closed spec fn view(&self) -> LockView {
        LockView {
            phase: self.phase,
            next_attempt: self.next_attempt,
            failures: self.failures,
            torch_mask: self.torch_mask,
            torch_visible: self.torch_visible,
            torch_state_id: self.torch_state_id,
            esc_flash: self.esc_flash,
            last_input_at: self.last_input_at,
            compositor_confirmed: self.compositor_confirmed,
            unlock_called: self.unlock_called,
        }
    }
}

impl LockState {
    pub fn new() -> (state: LockState)
        ensures
            state@ == LockView::initial(),
            state@.wf(),
    {
        LockState {
            phase: Phase::LockPending,
            next_attempt: 1,
            failures: 0,
            torch_mask: ALL_TORCHES_MASK,
            torch_visible: false,
            torch_state_id: 0,
            esc_flash: None,
            last_input_at: None,
            compositor_confirmed: false,
            unlock_called: false,
        }
    }

    /// This is the only transition that enables password editing.
    pub fn compositor_locked(&mut self) -> (entered: bool)
        requires
            old(self)@.wf(),
        ensures
            final(self)@.wf(),
            final(self)@ == old(self)@.compositor_locked(),
            entered == (old(self)@.phase is LockPending),
    {
        if self.phase != Phase::LockPending {
            return false;
        }
        self.compositor_confirmed = true;
        self.phase = Phase::Idle;
        true
    }

    pub fn can_edit(&self) -> (editable: bool)
        ensures
            editable == self@.can_edit(),
    {
        self.phase == Phase::Idle && self.compositor_confirmed && self.esc_flash.is_none()
    }

    /// Records an edit that actually changed the password and chooses one valid torch flip.
    pub fn note_edit(&mut self, now: Instant)
        requires
            old(self)@.wf(),
        ensures
            final(self)@.wf(),
            exists|choice: int|
                0 <= choice < valid_flips(old(self)@.torch_mask).len() && final(self)@ == #[trigger] old(self)@.edited(now, choice),
    {
        proof {
            lemma_valid_flips(self.torch_mask);
        }
        let valid_count: usize = valid_flip_count(self.torch_mask);
        let choice: usize = random::below(valid_count);
        self.note_edit_with_choice(now, choice);
    }

    /// Records an edit whose torch flip is the given one of the valid flips.
    pub fn note_edit_with_choice(&mut self, now: Instant, choice: usize)
        requires
            old(self)@.wf(),
            old(self)@.can_edit() ==> choice < valid_flips(old(self)@.torch_mask).len(),
        ensures
            final(self)@.wf(),
            final(self)@ == old(self)@.edited(now, choice as int),
    {
        proof {
            lemma_valid_flips(self.torch_mask);
        }
        if !self.can_edit() {
            return;
        }
        if let Some(mask) = mask_after_valid_flip(self.torch_mask, choice) {
            self.torch_mask = mask;
            self.torch_visible = true;
            self.advance_torch_state();
            self.last_input_at = Some(now);
        }
    }

    /// Clears input feedback into the fixed on/off/on/off sequence. Input stays frozen until
    /// it ends.
    pub fn note_cancel(&mut self, now: Instant)
        requires
            old(self)@.wf(),
        ensures
            final(self)@.wf(),
            final(self)@ == old(self)@.cancelled(now),
    {
        if !self.can_edit() {
            return;
        }
        self.torch_mask = ALL_TORCHES_MASK;
        self.torch_visible = true;
        self.last_input_at = None;
        match now.checked_add(ESC_FLASH_STEP_DURATION) {
            None => self.enter_fatal(),
            Some(next_step_at) => {
                self.esc_flash = Some(EscFlash { step: 0, next_step_at });
                self.advance_torch_state();
            },
        }
    }

    pub fn begin_authentication(&mut self, now: Instant) -> (begun: Option<AttemptId>)
        requires
            old(self)@.wf(),
        ensures
            final(self)@.wf(),
            final(self)@ == old(self)@.authentication_begun(now),
            begun == if old(self)@.can_edit() && old(self)@.next_attempt < u64::MAX {
                Some(AttemptId(old(self)@.next_attempt))
            } else {
                None
            },
    {
        if !self.can_edit() {
            return None;
        }
        let attempt = AttemptId::new(self.next_attempt);
        match self.next_attempt.checked_add(1) {
            None => None,
            Some(next_attempt) => {
                self.next_attempt = next_attempt;
                self.phase = Phase::Authenticating { attempt, approach_started_at: now };
                self.hide_torches();
                Some(attempt)
            },
        }
    }

    /// Returns true only when the current attempt consumed this result.
    pub fn authentication_result(
        &mut self,
        attempt: AttemptId,
        decision: AuthDecision,
        now: Instant,
    ) -> (consumed: bool)
        requires
            old(self)@.wf(),
        ensures
            final(self)@.wf(),
            final(self)@ == old(self)@.answered(attempt, decision, now),
            consumed == old(self)@.awaits(attempt),
    {
        match self.phase {
            Phase::Authenticating { attempt: current_attempt, approach_started_at } => {
                if current_attempt != attempt {
                    return false;
                }
                match decision {
                    AuthDecision::Authenticated => {
                        self.phase = Phase::Authenticated {
                            attempt,
                            approach_started_at,
                            started_at: now,
                        };
                    },
                    AuthDecision::Denied => {
                        self.failures = self.failures.saturating_add(1);
                        let delay: Duration = denial_delay(self.failures);
                        match now.checked_add(delay) {
                            None => self.enter_fatal(),
                            Some(retry_after) => {
                                self.phase = Phase::AuthFailed { retry_after, approach_started_at };
                            },
                        }
                    },
                    AuthDecision::SystemFailure => self.enter_fatal(),
                }
                true
            },
            _ => false,
        }
    }

    /// Advances monotonic deadlines. Returns true when an idle password must be cleared.
    pub fn tick(&mut self, now: Instant) -> (clear_password: bool)
        requires
            old(self)@.wf(),
        ensures
            final(self)@.wf(),
            final(self)@ == old(self)@.ticked(now),
            clear_password == old(self)@.flashed(now).idle_expired(now),
    {
        self.advance_flash(now);
        match self.phase {
            Phase::Idle => {
                if self.esc_flash.is_none() {
                    if let Some(last) = self.last_input_at {
                        if now.saturating_duration_since(last) >= IDLE_CLEAR_DURATION {
                            self.hide_torches();
                            return true;
                        }
                    }
                }
            },
            Phase::AuthFailed { retry_after, .. } => {
                if now.nanos >= retry_after.nanos {
                    self.phase = Phase::Idle;
                    self.torch_mask = ALL_TORCHES_MASK;
                    self.torch_visible = true;
                    self.advance_torch_state();
                    // A failed password is never restored. The initial all-on torch scene
                    // starts a fresh empty-input idle period at the exact end of the backoff.
                    self.last_input_at = Some(retry_after);
                }
            },
            _ => {},
        }
        false
    }

    fn advance_flash(&mut self, now: Instant)
        requires
            old(self)@.wf(),
        ensures
            final(self)@.wf(),
            final(self)@ == old(self)@.flashed(now),
    {
        let ghost start = self@;
        let ghost mut taken: int = 0;
        loop
            invariant
                self@.wf(),
                start.wf(),
                start == old(self)@,
                0 <= taken,
                taken == 0 ==> self@ == start,
                taken > 0 ==> {
                    &&& start.esc_flash is Some
                    &&& now.nanos >= start.esc_flash->0.next_step_at.nanos + (taken - 1)
                        * ESC_FLASH_STEP_DURATION
                    &&& taken <= flash_room(start.esc_flash->0.next_step_at)
                    &&& start.esc_flash->0.step + taken < ESC_FLASH_STEPS
                    &&& start.esc_flash->0.next_step_at.nanos <= LAST_INSTANT_NANOS
                    &&& self@ == LockView {
                        torch_mask: flash_mask(start.esc_flash->0.step + taken),
                        esc_flash: Some(flash_after(start.esc_flash->0, taken)),
                        ..start.torch_changes(taken)
                    }
                },
            decreases ESC_FLASH_STEPS - taken,
        {
            let flash = match self.esc_flash {
                Some(flash) => flash,
                None => return,
            };
            if now.nanos < flash.next_step_at.nanos {
                return;
            }
            let next_step: u8 = flash.step + 1;
            self.advance_torch_state();
            if next_step == ESC_FLASH_STEPS {
                self.torch_mask = ALL_TORCHES_MASK;
                self.esc_flash = None;
                // Timeout begins at the exact end of the flash, even if dispatch was delayed.
                self.last_input_at = Some(flash.next_step_at);
                return;
            }
            self.torch_mask = if next_step % 2 == 0 {
                ALL_TORCHES_MASK
            } else {
                0
            };
            match flash.next_step_at.checked_add(ESC_FLASH_STEP_DURATION) {
                None => {
                    self.enter_fatal();
                    return;
                },
                Some(next_step_at) => {
                    self.esc_flash = Some(EscFlash { step: next_step, next_step_at });
                },
            }
            proof {
                taken = taken + 1;
            }
        }
    }

    /// The next moment at which [`LockState::tick`] or the unlock gate has work to do.
    pub fn next_deadline(&self, now: Instant) -> (deadline: Option<Instant>)
        ensures
            deadline == match self@.deadline() {
                Some(at) if at.nanos > now.nanos => Some(at),
                _ => None,
            },
    {
        let phase_deadline = match self.phase {
            Phase::Idle => match self.esc_flash {
                Some(flash) => Some(flash.next_step_at),
                None => match self.last_input_at {
                    Some(last) => last.checked_add(IDLE_CLEAR_DURATION),
                    None => None,
                },
            },
            Phase::AuthFailed { retry_after, .. } => Some(retry_after),
            Phase::Authenticated { started_at, .. } => started_at.checked_add(DISSOLVE_DURATION),
            _ => None,
        };
        match phase_deadline {
            Some(at) => if at.nanos > now.nanos {
                Some(at)
            } else {
                None
            },
            None => None,
        }
    }

    pub fn visual(&self, _now: Instant) -> (visual: LockVisual)
        ensures
            visual == self@.visual(),
    {
        match self.phase {
            Phase::Idle => if self.torch_visible {
                LockVisual::Torch { mask: self.torch_mask, state_id: self.torch_state_id }
            } else {
                LockVisual::Hidden
            },
            Phase::Authenticating { approach_started_at, .. } => LockVisual::Creeper {
                approach_started_at,
                red: false,
            },
            Phase::AuthFailed { approach_started_at, .. } => LockVisual::Creeper {
                approach_started_at,
                red: true,
            },
            Phase::Authenticated {
                attempt,
                approach_started_at,
                started_at,
            } => LockVisual::DissolvingCreeper { attempt, approach_started_at, started_at },
            Phase::Fatal => LockVisual::FatalBlack,
            _ => LockVisual::Hidden,
        }
    }

    pub fn prepare_unlock(&mut self, now: Instant, all_outputs_presented: bool) -> (prepared: bool)
        requires
            old(self)@.wf(),
        ensures
            final(self)@.wf(),
            final(self)@ == old(self)@.unlock_prepared(now, all_outputs_presented),
            prepared == (all_outputs_presented && old(self)@.dissolve_done(now)),
    {
        match self.phase {
            Phase::Authenticated { started_at, .. } => {
                if !all_outputs_presented || now.saturating_duration_since(started_at)
                    < DISSOLVE_DURATION {
                    return false;
                }
                self.phase = Phase::UnlockRequested;
                true
            },
            _ => false,
        }
    }

    /// The protocol adapter must call this immediately before its sole unlock call.
    pub fn consume_unlock_gate(&mut self) -> (opened: bool)
        requires
            old(self)@.wf(),
        ensures
            final(self)@.wf(),
            final(self)@ == old(self)@.gate_consumed(),
            opened == old(self)@.gate_open(),
    {
        if !self.compositor_confirmed || self.unlock_called || self.phase
            != Phase::UnlockRequested {
            return false;
        }
        self.unlock_called = true;
        true
    }

    pub fn awaiting_unlock_sync(&self) -> (awaiting: bool)
        ensures
            awaiting == self@.awaiting_sync(),
    {
        self.phase == Phase::UnlockRequested && self.unlock_called
    }

    pub fn can_use_lock_surfaces(&self) -> (usable: bool)
        ensures
            usable == self@.can_use_lock_surfaces(),
    {
        !self.unlock_called && self.phase != Phase::Finished && self.phase != Phase::Fatal
    }

    pub fn accepts_new_outputs(&self) -> (accepts: bool)
        ensures
            accepts == (self@.can_use_lock_surfaces() && !(self@.phase is UnlockRequested)),
    {
        self.can_use_lock_surfaces() && self.phase != Phase::UnlockRequested
    }

    pub fn unlock_sync_completed(&mut self) -> (completed: bool)
        requires
            old(self)@.wf(),
        ensures
            final(self)@.wf(),
            final(self)@ == old(self)@.sync_completed(),
            completed == old(self)@.awaiting_sync(),
    {
        if self.phase != Phase::UnlockRequested || !self.unlock_called {
            return false;
        }
        self.phase = Phase::Finished;
        true
    }

    /// Returns whether the compositor had previously confirmed the lock.
    pub fn compositor_finished(&mut self) -> (was_locked: bool)
        requires
            old(self)@.wf(),
        ensures
            final(self)@.wf(),
            final(self)@ == old(self)@.compositor_finished(),
            was_locked == old(self)@.compositor_confirmed,
    {
        let was_locked = self.compositor_confirmed;
        self.hide_torches();
        self.phase = if was_locked {
            Phase::Fatal
        } else {
            Phase::Finished
        };
        was_locked
    }

    pub fn enter_fatal(&mut self)
        ensures
            final(self)@ == old(self)@.fatal(),
            old(self)@.torch_mask <= ALL_TORCHES_MASK && old(self)@.next_attempt >= 1 ==> final(self)@.wf(),
    {
        self.hide_torches();
        self.phase = Phase::Fatal;
    }

    pub fn is_fatal(&self) -> (fatal: bool)
        ensures
            fatal == (self@.phase is Fatal),
    {
        self.phase == Phase::Fatal
    }

    fn advance_torch_state(&mut self)
        ensures
            final(self)@ == old(self)@.torch_changes(1),
    {
        self.torch_state_id = self.torch_state_id.wrapping_add(1);
    }

    fn hide_torches(&mut self)
        ensures
            final(self)@ == old(self)@.torches_hidden(),
    {
        self.torch_visible = false;
        self.esc_flash = None;
        self.last_input_at = None;
    }
}

impl Default for LockState {
    fn default() -> (state: LockState)
        ensures
            state@ == LockView::initial(),
            state@.wf(),
    {
        LockState::new()
    }
}

fn denial_delay(failures: u8) -> (delay: Duration)
    ensures
        delay == backoff(failures),
{
    let past_first: u8 = failures.saturating_sub(1);
    let shift: u8 = if past_first < 3 {
        past_first
    } else {
        3
    };
    assert(1u64 << 0u8 == 1 && 1u64 << 1u8 == 2 && 1u64 << 2u8 == 4 && 1u64 << 3u8 == 8)
        by (bit_vector);
    seconds(1u64 << shift)
}

/// How many one-bit flips leave some torch lit and some torch dark.
pub fn valid_flip_count(mask: u8) -> (count: usize)
    ensures
        count == valid_flips(mask).len(),
{
    collect_valid_flips(mask).len()
}

/// The chosen one of the flips that leave some torch lit and some torch dark.
pub fn mask_after_valid_flip(mask: u8, choice: usize) -> (flipped: Option<u8>)
    ensures
        flipped == if choice < valid_flips(mask).len() {
            Some(valid_flips(mask)[choice as int])
        } else {
            None
        },
{
    let flips = collect_valid_flips(mask);
    if choice < flips.len() {
        Some(flips[choice])
    } else {
        None
    }
}

fn collect_valid_flips(mask: u8) -> (flips: Vec<u8>)
    ensures
        flips@ == valid_flips(mask),
{
    let candidates: [u8; 4] = [mask ^ 1, mask ^ 2, mask ^ 4, mask ^ 8];
    let ghost all = seq![mask ^ 1u8, mask ^ 2u8, mask ^ 4u8, mask ^ 8u8];
    let mut flips: Vec<u8> = Vec::new();
    let mut index: usize = 0;
    assert(candidates@ == all);
    assert(all.take(0) == Seq::<u8>::empty());
    assert(Seq::<u8>::empty().filter(is_partial_mask()) == Seq::<u8>::empty()) by {
        reveal(Seq::filter);
    }
    while index < 4
        invariant
            index <= 4,
            candidates@ == all,
            all.len() == 4,
            flips@ == all.take(index as int).filter(is_partial_mask()),
        decreases 4 - index,
    {
        let candidate: u8 = candidates[index];
        proof {
            let longer = all.take(index + 1);
            assert(longer.drop_last() == all.take(index as int));
            assert(longer.last() == candidate);
            reveal(Seq::filter);
        }
        if candidate != 0 && candidate != ALL_TORCHES_MASK {
            flips.push(candidate);
        }
        index = index + 1;
    }
    assert(all.take(4) == all);
    flips
}

/// Every valid flip of a torch mask changes exactly one torch and lights neither all of
/// them nor none; at least three flips are valid, and no such flip is missing.
pub proof fn lemma_valid_flips(mask: u8)
    requires
        mask <= ALL_TORCHES_MASK,
    ensures
        3 <= valid_flips(mask).len() <= 4,
        forall|i: int|
            0 <= i < valid_flips(mask).len() ==> {
                let flipped = #[trigger] valid_flips(mask)[i];
                &&& 0 < flipped < ALL_TORCHES_MASK
                &&& one_torch_apart(mask, flipped)
            },
        forall|flipped: u8|
            0 < flipped < ALL_TORCHES_MASK && #[trigger] one_torch_apart(mask, flipped)
                ==> valid_flips(mask).contains(flipped),
{
    let a = mask ^ 1u8;
    let b = mask ^ 2u8;
    let c = mask ^ 4u8;
    let d = mask ^ 8u8;
    let pred = is_partial_mask();
    assert(a <= 15 && b <= 15 && c <= 15 && d <= 15 && a != b && a != c && a != d && b != c && b
        != d && c != d && (a == 0 ==> b != 15 && c != 15 && d != 15) && (b == 0 ==> a != 15 && c
        != 15 && d != 15) && (c == 0 ==> a != 15 && b != 15 && d != 15) && (d == 0 ==> a != 15 && b
        != 15 && c != 15)) by (bit_vector)
        requires
            mask <= 15,
            a == mask ^ 1u8,
            b == mask ^ 2u8,
            c == mask ^ 4u8,
            d == mask ^ 8u8,
    ;
    let all = seq![a, b, c, d];
    reveal(Seq::filter);
    reveal_with_fuel(Seq::filter, 5);
    assert(all.drop_last() == seq![a, b, c]);
    assert(seq![a, b, c].drop_last() == seq![a, b]);
    assert(seq![a, b].drop_last() == seq![a]);
    assert(seq![a].drop_last() == Seq::<u8>::empty());
    let f0 = Seq::<u8>::empty();
    let f1 = if pred(a) { f0.push(a) } else { f0 };
    let f2 = if pred(b) { f1.push(b) } else { f1 };
    let f3 = if pred(c) { f2.push(c) } else { f2 };
    let f4 = if pred(d) { f3.push(d) } else { f3 };
    assert(valid_flips(mask) == f4);
    assert forall|flipped: u8|
        0 < flipped < ALL_TORCHES_MASK && #[trigger] one_torch_apart(mask, flipped) implies f4.contains(
        flipped,
    ) by {
        if flipped == a {
            assert(f1[f1.len() - 1] == a);
            assert(f4[f1.len() - 1] == a);
        } else if flipped == b {
            assert(f2[f2.len() - 1] == b);
            assert(f4[f2.len() - 1] == b);
        } else if flipped == c {
            assert(f3[f3.len() - 1] == c);
            assert(f4[f3.len() - 1] == c);
        } else {
            assert(f4[f4.len() - 1] == d);
        }
    }
}

/// Whether two masks differ in exactly one torch.
pub open spec fn one_torch_apart(mask: u8, other: u8) -> bool {
    other == mask ^ 1u8 || other == mask ^ 2u8 || other == mask ^ 4u8 || other == mask ^ 8u8
}

} // verus!
