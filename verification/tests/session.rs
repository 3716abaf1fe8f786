use minecraft_plus_wayland::lock::pam::secret::{LockedSecret, SecretError};
use minecraft_plus_wayland::lock::state::{AttemptId, AuthDecision, LockVisual, DISSOLVE_DURATION};
use minecraft_plus_wayland::lock::worker::{AuthReply, AuthRequest};
use minecraft_plus_wayland::session::{Key, LockSession, SubmitOutcome, UNLOCK_FLUSH_RETRY};
use minecraft_plus_wayland::time::{seconds, Instant};

fn secret() -> Result<LockedSecret, SecretError> {
    LockedSecret::new(4096)
}

fn at(seconds_after: u64) -> Instant {
    Instant { nanos: seconds(100 + seconds_after) }
}

fn locked_session() -> LockSession {
    let mut session = LockSession::new(secret().unwrap());
    assert!(session.compositor_locked());
    session
}

fn typed(session: &mut LockSession, text: &str, now: Instant) {
    session.key_event(Key::Other, Some(text), false, false, now);
}

fn submitted(session: &mut LockSession, now: Instant) -> AuthRequest {
    match session.submit_password(secret(), now) {
        SubmitOutcome::Request(request) => request,
        _ => panic!("a password that can be edited can be submitted"),
    }
}

#[test]
fn a_password_is_typed_submitted_and_unlocks() {
    let mut session = locked_session();
    typed(&mut session, "pa", at(0));
    typed(&mut session, "\u{1b}", at(0));
    typed(&mut session, "ss", at(0));
    session.key_event(Key::BackSpace, None, false, false, at(0));
    let outcome = session.key_event(Key::Enter, Some("\r"), false, false, at(0));
    assert!(outcome.submit);
    let request = submitted(&mut session, at(1));
    assert_eq!(request.password.as_bytes(), b"pas");
    assert!(session.password_mapping().iter().all(|byte| *byte == 0));
    session.request_sent(true);
    assert!(!session.can_edit());

    let reply = AuthReply { attempt: request.attempt, decision: AuthDecision::Authenticated };
    let late = AuthReply { attempt: AttemptId::new(99), ..reply };
    assert!(!session.handle_auth_reply(late, at(2)));
    assert!(session.handle_auth_reply(reply, at(2)));
    let done = Instant { nanos: at(2).nanos + DISSOLVE_DURATION };
    assert!(!session.prepare_unlock(done, &[Some(request.attempt), None]));
    assert!(!session.prepare_unlock(done, &[]));
    assert!(session.prepare_unlock(done, &[Some(request.attempt)]));
    assert!(session.consume_unlock_gate());
    assert!(!session.consume_unlock_gate());
    assert_eq!(
        session.next_wakeup(done, None),
        done.checked_add(UNLOCK_FLUSH_RETRY)
    );
    assert!(session.unlock_sync_completed());
}

#[test]
fn escape_and_timeout_clear_the_password() {
    let mut session = locked_session();
    typed(&mut session, "secret", at(0));
    session.key_event(Key::Escape, None, false, false, at(0));
    assert!(session.password_mapping().iter().all(|byte| *byte == 0));
    assert!(!session.can_edit());
    session.tick(at(1));
    assert!(session.can_edit());

    typed(&mut session, "again", at(2));
    assert!(session.password_mapping().iter().any(|byte| *byte != 0));
    session.tick(at(12));
    assert!(session.password_mapping().iter().all(|byte| *byte == 0));
    assert_eq!(session.visual(at(12)), LockVisual::Hidden);
}

#[test]
fn denied_passwords_leave_an_empty_one() {
    let mut session = locked_session();
    typed(&mut session, "wrong", at(0));
    let request = submitted(&mut session, at(0));
    session.request_sent(true);
    let reply = AuthReply { attempt: request.attempt, decision: AuthDecision::Denied };
    assert!(session.handle_auth_reply(reply, at(0)));
    typed(&mut session, "ignored", at(0));
    session.tick(at(1));
    assert!(session.can_edit());
    assert!(submitted(&mut session, at(1)).password.is_empty());
}

#[test]
fn faults_close_the_gate_for_good() {
    let mut session = locked_session();
    typed(&mut session, "secret", at(0));
    let refused = session.submit_password(Err(SecretError::TooLong), at(0));
    assert!(matches!(refused, SubmitOutcome::NoBuffer));
    assert_eq!(session.visual(at(0)), LockVisual::FatalBlack);
    assert!(session.password_mapping().iter().all(|byte| *byte == 0));
    assert!(!session.consume_unlock_gate());

    let mut unsent = locked_session();
    let _ = submitted(&mut unsent, at(0));
    unsent.request_sent(false);
    assert!(unsent.must_disconnect());
    assert!(!unsent.consume_unlock_gate());

    let mut orphaned = locked_session();
    orphaned.handle_worker_closed();
    assert_eq!(orphaned.visual(at(0)), LockVisual::FatalBlack);

    let mut finished = locked_session();
    assert!(finished.compositor_finished());
    assert!(!finished.can_use_lock_surfaces());
}

#[test]
fn repeats_belong_to_presses_that_were_accepted() {
    let mut session = LockSession::new(secret().unwrap());
    let early = session.key_event(Key::Other, Some("a"), false, false, at(0));
    assert!(!early.repeat_allowed && !early.submit);
    assert!(session.compositor_locked());
    session.key_event(Key::Other, Some("a"), true, early.repeat_allowed, at(0));
    assert!(session.password_mapping().iter().all(|byte| *byte == 0));
    let press = session.key_event(Key::Other, Some("b"), false, false, at(0));
    assert!(press.repeat_allowed);
    session.key_event(Key::Other, Some("b"), true, press.repeat_allowed, at(0));
    assert_eq!(submitted(&mut session, at(0)).password.as_bytes(), b"bb");
}
