use minecraft_plus_wayland::lock::state::{
    mask_after_valid_flip, valid_flip_count, AttemptId, AuthDecision, LockState, LockVisual,
    ALL_TORCHES_MASK, COPPER_BIT, CREEPER_APPROACH_DURATION, DISSOLVE_DURATION,
    ESC_FLASH_STEP_DURATION, IDLE_CLEAR_DURATION, REDSTONE_BIT, SOUL_BIT, TORCH_BIT,
};
use minecraft_plus_wayland::time::{milliseconds, seconds, Duration, Instant};

fn now() -> Instant {
    Instant { nanos: 3_000_000_000 }
}

fn later(instant: Instant, duration: Duration) -> Instant {
    Instant { nanos: instant.nanos + duration }
}

#[test]
fn pending_lock_cannot_edit_authenticate_or_unlock() {
    let now = now();
    let mut state = LockState::new();
    assert!(!state.can_edit());
    assert_eq!(state.begin_authentication(now), None);
    assert!(!state.prepare_unlock(later(now, DISSOLVE_DURATION), true));
    assert!(!state.consume_unlock_gate());
}

#[test]
fn only_matching_success_and_presented_dissolve_can_reach_unlock_gate() {
    let approach_started_at = now();
    let authenticated_at = later(approach_started_at, milliseconds(200));
    let mut state = LockState::new();
    assert!(state.compositor_locked());
    let attempt = state.begin_authentication(approach_started_at).unwrap();
    assert!(!state.authentication_result(
        AttemptId::new(99),
        AuthDecision::Authenticated,
        authenticated_at
    ));
    assert!(state.authentication_result(attempt, AuthDecision::Authenticated, authenticated_at));
    assert_eq!(
        state.visual(authenticated_at),
        LockVisual::DissolvingCreeper {
            attempt,
            approach_started_at,
            started_at: authenticated_at,
        }
    );
    assert_eq!(
        state.next_deadline(authenticated_at),
        authenticated_at.checked_add(DISSOLVE_DURATION)
    );
    assert!(!state.prepare_unlock(
        later(authenticated_at, DISSOLVE_DURATION - milliseconds(1)),
        true
    ));
    assert!(!state.prepare_unlock(later(authenticated_at, DISSOLVE_DURATION), false));
    assert!(state.can_use_lock_surfaces());
    assert!(state.accepts_new_outputs());
    assert!(state.prepare_unlock(later(authenticated_at, DISSOLVE_DURATION), true));
    assert!(state.can_use_lock_surfaces());
    assert!(!state.accepts_new_outputs());
    assert!(state.consume_unlock_gate());
    assert!(state.awaiting_unlock_sync());
    assert!(!state.can_use_lock_surfaces());
    assert!(!state.accepts_new_outputs());
    assert!(!state.consume_unlock_gate());
    assert!(state.unlock_sync_completed());
    assert!(!state.awaiting_unlock_sync());
    assert!(!state.can_use_lock_surfaces());
    assert!(!state.accepts_new_outputs());
    assert!(!state.unlock_sync_completed());
}

#[test]
fn success_preserves_the_independent_approach_timeline() {
    let approach_started_at = now();
    for authenticated_after in [0, milliseconds(200), seconds(2)] {
        let authenticated_at = later(approach_started_at, authenticated_after);
        let mut state = LockState::new();
        state.compositor_locked();
        let attempt = state.begin_authentication(approach_started_at).unwrap();
        state.authentication_result(attempt, AuthDecision::Authenticated, authenticated_at);
        assert_eq!(
            state.visual(authenticated_at),
            LockVisual::DissolvingCreeper {
                attempt,
                approach_started_at,
                started_at: authenticated_at,
            }
        );
    }
}

#[test]
fn visual_frame_chain_and_completion_use_monotonic_deadlines() {
    let started_at = now();
    let approaching = LockVisual::Creeper { approach_started_at: started_at, red: false };
    assert!(approaching
        .wants_continuous_frames(later(started_at, CREEPER_APPROACH_DURATION - milliseconds(1))));
    assert!(!approaching.wants_continuous_frames(later(started_at, CREEPER_APPROACH_DURATION)));

    let attempt = AttemptId::new(7);
    let dissolving = LockVisual::DissolvingCreeper {
        attempt,
        approach_started_at: started_at,
        started_at,
    };
    assert!(dissolving.wants_continuous_frames(later(started_at, DISSOLVE_DURATION)));
    assert_eq!(
        dissolving
            .completed_dissolve_attempt(later(started_at, DISSOLVE_DURATION - milliseconds(1))),
        None
    );
    assert_eq!(
        dissolving.completed_dissolve_attempt(later(started_at, DISSOLVE_DURATION)),
        Some(attempt)
    );
}

#[test]
fn an_edit_before_the_lock_is_confirmed_changes_nothing() {
    let mut state = LockState::new();
    let before = state.visual(now());
    state.note_edit_with_choice(now(), usize::MAX);
    assert!(!state.can_edit());
    assert_eq!(state.visual(now()), before);
}

#[test]
fn denials_back_off_return_to_empty_all_on_torches_and_never_unlock() {
    let mut now = now();
    let mut state = LockState::new();
    state.compositor_locked();
    for expected in [1, 2, 4, 8, 8] {
        state.note_edit_with_choice(now, 0);
        let attempt = state.begin_authentication(now).unwrap();
        state.authentication_result(attempt, AuthDecision::Denied, now);
        assert_eq!(
            state.visual(now),
            LockVisual::Creeper { approach_started_at: now, red: true }
        );
        assert!(!state.prepare_unlock(later(now, seconds(expected)), true));
        assert!(!state.can_edit());
        now = later(now, seconds(expected));
        state.tick(now);
        assert!(state.can_edit());
        assert!(matches!(
            state.visual(now),
            LockVisual::Torch { mask: ALL_TORCHES_MASK, .. }
        ));
    }
    assert!(!state.consume_unlock_gate());
}

#[test]
fn systemic_failure_and_worker_disconnect_fail_closed() {
    let now = now();
    let mut state = LockState::new();
    state.compositor_locked();
    let attempt = state.begin_authentication(now).unwrap();
    state.authentication_result(attempt, AuthDecision::SystemFailure, now);
    assert!(state.is_fatal());
    assert_eq!(state.visual(now), LockVisual::FatalBlack);
    assert!(!state.consume_unlock_gate());
}

#[test]
fn every_valid_mask_flip_excludes_both_endpoints() {
    assert_eq!(REDSTONE_BIT, 1 << 0);
    assert_eq!(COPPER_BIT, 1 << 1);
    assert_eq!(SOUL_BIT, 1 << 2);
    assert_eq!(TORCH_BIT, 1 << 3);

    for mask in 0..=ALL_TORCHES_MASK {
        let count = valid_flip_count(mask);
        for choice in 0..count {
            let result = mask_after_valid_flip(mask, choice).unwrap();
            assert_ne!(result, 0);
            assert_ne!(result, ALL_TORCHES_MASK);
            assert_eq!((mask ^ result).count_ones(), 1);
        }
    }
}

#[test]
fn torch_flips_only_when_an_actual_edit_is_recorded() {
    let now = now();
    let mut state = LockState::new();
    state.compositor_locked();
    assert_eq!(state.visual(now), LockVisual::Hidden);

    assert_eq!(state.visual(later(now, milliseconds(1))), LockVisual::Hidden);
    state.note_edit_with_choice(now, 0);
    let LockVisual::Torch { mask, state_id } = state.visual(now) else {
        panic!("successful edit did not show torches");
    };
    assert_ne!(mask, 0);
    assert_ne!(mask, ALL_TORCHES_MASK);
    assert_eq!(state.visual(now), LockVisual::Torch { mask, state_id });
}

#[test]
fn esc_freezes_input_flashes_twice_and_restarts_timeout_at_end() {
    let start = now();
    let mut state = LockState::new();
    state.compositor_locked();
    state.note_edit_with_choice(start, 0);
    state.note_cancel(start);
    assert!(!state.can_edit());

    for (step, mask) in [(0, ALL_TORCHES_MASK), (1, 0), (2, ALL_TORCHES_MASK), (3, 0)] {
        let at = later(start, ESC_FLASH_STEP_DURATION * step);
        state.tick(at);
        assert!(
            matches!(state.visual(at), LockVisual::Torch { mask: actual, .. } if actual == mask)
        );
        assert!(!state.can_edit());
    }

    let end = later(start, ESC_FLASH_STEP_DURATION * 4);
    assert!(!state.tick(end));
    assert!(state.can_edit());
    assert!(matches!(
        state.visual(end),
        LockVisual::Torch { mask: ALL_TORCHES_MASK, .. }
    ));
    assert_eq!(state.next_deadline(end), end.checked_add(IDLE_CLEAR_DURATION));
    assert!(!state.tick(later(end, IDLE_CLEAR_DURATION - milliseconds(1))));
    assert!(state.tick(later(end, IDLE_CLEAR_DURATION)));
    assert_eq!(state.visual(later(end, IDLE_CLEAR_DURATION)), LockVisual::Hidden);
}

#[test]
fn ordinary_input_times_out_to_the_module() {
    let now = now();
    let mut state = LockState::new();
    state.compositor_locked();
    state.note_edit_with_choice(now, 0);
    assert!(!state.tick(later(now, IDLE_CLEAR_DURATION - milliseconds(1))));
    assert!(state.tick(later(now, IDLE_CLEAR_DURATION)));
    assert_eq!(state.visual(later(now, IDLE_CLEAR_DURATION)), LockVisual::Hidden);
}

#[test]
fn finished_after_locked_never_constructs_success() {
    let mut pending = LockState::new();
    assert!(!pending.compositor_finished());
    assert!(!pending.consume_unlock_gate());

    let mut locked = LockState::new();
    locked.compositor_locked();
    assert!(locked.compositor_finished());
    assert!(locked.is_fatal());
    assert!(!locked.consume_unlock_gate());
}

#[test]
fn a_flash_looked_at_late_has_not_drifted() {
    let start = now();
    let end = later(start, ESC_FLASH_STEP_DURATION * 4 + 17);
    let mut watched = LockState::new();
    let mut unwatched = LockState::new();
    for state in [&mut watched, &mut unwatched] {
        state.compositor_locked();
        state.note_edit_with_choice(start, 0);
        state.note_cancel(start);
    }
    for step in 0..40u128 {
        watched.tick(later(start, step * 10_000_000));
    }
    watched.tick(end);
    unwatched.tick(end);
    assert_eq!(watched.visual(end), unwatched.visual(end));
    assert_eq!(watched.next_deadline(end), unwatched.next_deadline(end));
}

#[test]
fn answers_to_earlier_attempts_change_nothing() {
    let now = now();
    let mut state = LockState::new();
    state.compositor_locked();
    let first = state.begin_authentication(now).unwrap();
    state.authentication_result(first, AuthDecision::Denied, now);
    state.tick(later(now, seconds(1)));
    let second = state.begin_authentication(later(now, seconds(1))).unwrap();
    assert_ne!(first, second);
    assert!(!state.authentication_result(first, AuthDecision::Authenticated, later(now, seconds(2))));
    assert!(state.authentication_result(second, AuthDecision::Denied, later(now, seconds(2))));
}

#[test]
fn random_edits_keep_between_the_endpoints() {
    let mut state = LockState::new();
    state.compositor_locked();
    for step in 0..200u128 {
        let at = later(now(), step);
        state.note_edit(at);
        let LockVisual::Torch { mask, .. } = state.visual(at) else {
            panic!("an edit shows the torches");
        };
        assert!(mask != 0 && mask != ALL_TORCHES_MASK && mask < 16);
    }
}
