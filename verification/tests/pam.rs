use minecraft_plus_wayland::lock::identity::{
    after_lookup, first_buffer_size, validate_process_ids, IdentityError, LookupStep,
    PasswdRecord, DEFAULT_NSS_BUFFER, ERANGE, MAX_NSS_BUFFER, MIN_NSS_BUFFER,
};
use minecraft_plus_wayland::lock::pam::codes::{
    PAM_ABORT, PAM_ACCT_EXPIRED, PAM_AUTHINFO_UNAVAIL, PAM_AUTHTOK_DISABLE_AGING,
    PAM_AUTHTOK_ERR, PAM_AUTHTOK_EXPIRED, PAM_AUTHTOK_LOCK_BUSY, PAM_AUTHTOK_RECOVERY_ERR,
    PAM_AUTH_ERR, PAM_BAD_ITEM, PAM_BUF_ERR, PAM_CONV_AGAIN, PAM_CONV_ERR, PAM_CRED_ERR,
    PAM_CRED_EXPIRED, PAM_CRED_INSUFFICIENT, PAM_CRED_UNAVAIL, PAM_ERROR_MSG, PAM_IGNORE,
    PAM_INCOMPLETE, PAM_MAXTRIES, PAM_MODULE_UNKNOWN, PAM_NEW_AUTHTOK_REQD, PAM_NO_MODULE_DATA,
    PAM_OPEN_ERR, PAM_PERM_DENIED, PAM_PROMPT_ECHO_OFF, PAM_PROMPT_ECHO_ON, PAM_SERVICE_ERR,
    PAM_SESSION_ERR, PAM_SUCCESS, PAM_SYMBOL_ERR, PAM_SYSTEM_ERR, PAM_TEXT_INFO, PAM_TRY_AGAIN,
    PAM_USER_UNKNOWN,
};
use minecraft_plus_wayland::lock::pam::conversation::{
    check_callback_slots, CallbackFailure, ConversationData, ConversationReply,
};
use minecraft_plus_wayland::lock::pam::error::{
    classify_account, classify_authenticate, classify_error_code, PamDenial, PamError,
    PamErrorKind, PamErrorStage,
};
use minecraft_plus_wayland::lock::pam::secret::{
    after_lock_attempt, covering_pages, disable_process_dumps, page_size, LockedSecret, MemoryLock,
    SecretError, EAGAIN, ENOSYS, EPERM, MAX_PASSWORD_BYTES, MLOCK_EAGAIN_RETRIES,
};
use minecraft_plus_wayland::lock::pam::transaction::{
    PamAuthenticator, PamCall, PamOutcome, PamStep, PamTransaction,
};
use minecraft_plus_wayland::lock::state::{AttemptId, AuthDecision};
use minecraft_plus_wayland::lock::worker::{decide, keeps_serving, reply_to};

const RESPONSE_BYTES: usize = 512;

fn new_secret() -> LockedSecret {
    LockedSecret::new(4096).expect("secret allocation should succeed")
}

fn password(value: &str) -> LockedSecret {
    let mut secret = new_secret();
    secret.append(value).unwrap();
    secret
}

fn text_of(buffer: &[u8]) -> &[u8] {
    let end = buffer.iter().position(|byte| *byte == 0).unwrap();
    &buffer[..end]
}

/// Which allocations of the responses succeed.
#[derive(Clone, Copy)]
struct Memory {
    array: bool,
    buffer: bool,
}

const ENOUGH: Memory = Memory { array: true, buffer: true };

fn call_with(
    data: &mut ConversationData,
    styles: &[i32],
    memory: Memory,
) -> (ConversationReply, Vec<u8>) {
    let messages = styles.iter().map(|style| Some(*style)).collect::<Vec<_>>();
    let mut buffer = vec![0; if memory.buffer { RESPONSE_BYTES } else { 0 }];
    let reply = data.converse(styles.len() as i32, Some(&messages), memory.array, &mut buffer);
    (reply, buffer)
}

fn call(data: &mut ConversationData, styles: &[i32]) -> (ConversationReply, Vec<u8>) {
    call_with(data, styles, ENOUGH)
}

#[test]
fn accepts_one_hidden_prompt_and_silent_messages() {
    let mut data = ConversationData::new(password("secret"));
    let styles = [PAM_TEXT_INFO, PAM_PROMPT_ECHO_OFF, PAM_ERROR_MSG];
    let (reply, buffer) = call(&mut data, &styles);
    assert_eq!(reply.code, PAM_SUCCESS);
    assert_eq!(reply.password_index, Some(1));
    assert_eq!(text_of(&buffer), b"secret");
    assert_eq!(data.failure(), None);
}

#[test]
fn conversation_accepts_an_empty_password() {
    let mut data = ConversationData::new(password(""));
    let (reply, buffer) = call(&mut data, &[PAM_PROMPT_ECHO_OFF]);
    assert_eq!(reply.code, PAM_SUCCESS);
    assert!(text_of(&buffer).is_empty());
}

#[test]
fn rejects_echo_on_without_consuming_a_response() {
    let mut data = ConversationData::new(password("secret"));
    let (reply, _) = call(&mut data, &[PAM_PROMPT_ECHO_ON]);
    assert_eq!(reply.code, PAM_CONV_ERR);
    assert_eq!(reply.password_index, None);
    assert_eq!(data.failure(), Some(CallbackFailure::Protocol));
}

#[test]
fn validates_the_whole_batch_before_consuming_password() {
    let mut data = ConversationData::new(password("secret"));
    let (reply, _) = call(&mut data, &[PAM_PROMPT_ECHO_OFF, PAM_PROMPT_ECHO_OFF]);
    assert_eq!(reply.code, PAM_CONV_ERR);
    assert_eq!(reply.password_index, None);
    assert!(data.has_password());
}

#[test]
fn rejects_a_second_prompt_across_callbacks() {
    let mut data = ConversationData::new(password("secret"));
    let (reply, _) = call(&mut data, &[PAM_PROMPT_ECHO_OFF]);
    assert_eq!(reply.code, PAM_SUCCESS);

    let (reply, _) = call(&mut data, &[PAM_PROMPT_ECHO_OFF]);
    assert_eq!(reply.code, PAM_CONV_ERR);
    assert_eq!(reply.password_index, None);
}

#[test]
fn rejects_invalid_counts_and_null_elements() {
    for count in [i32::MIN, -1, 0, 33, i32::MAX] {
        let mut data = ConversationData::new(password("secret"));
        let mut buffer = [0; RESPONSE_BYTES];
        let reply = data.converse(count, None, true, &mut buffer);
        assert_eq!(reply.code, PAM_CONV_ERR);
        assert_eq!(reply.password_index, None);
    }

    let mut data = ConversationData::new(password("secret"));
    let mut buffer = [0; RESPONSE_BYTES];
    let reply = data.converse(1, Some(&[None]), true, &mut buffer);
    assert_eq!(reply.code, PAM_CONV_ERR);
}

#[test]
fn rejects_null_response_or_appdata_slots() {
    assert_eq!(check_callback_slots(false, false), Err(PAM_CONV_ERR));
    assert_eq!(check_callback_slots(true, false), Err(PAM_CONV_ERR));
    assert_eq!(check_callback_slots(true, true), Ok(()));
}

#[test]
fn reports_response_allocation_failures_without_handing_off_memory() {
    for memory in [
        Memory { array: false, buffer: false },
        Memory { array: true, buffer: false },
    ] {
        let mut data = ConversationData::new(password("secret"));
        let (reply, _) = call_with(&mut data, &[PAM_PROMPT_ECHO_OFF], memory);
        assert_eq!(reply.code, PAM_BUF_ERR);
        assert_eq!(reply.password_index, None);
        assert_eq!(data.failure(), Some(CallbackFailure::Resource));
    }
}

#[test]
fn a_recorded_panic_is_final() {
    let mut data = ConversationData::new(password("secret"));
    let code = data.record_failure(CallbackFailure::Panicked);
    assert_eq!(code, PAM_CONV_ERR);
    assert_eq!(data.failure(), Some(CallbackFailure::Panicked));
    let (reply, _) = call(&mut data, &[PAM_PROMPT_ECHO_OFF]);
    assert_eq!(reply.code, PAM_CONV_ERR);
    assert_eq!(data.failure(), Some(CallbackFailure::Panicked));
}

#[derive(Clone, Copy, Debug, PartialEq, Eq)]
enum Call {
    Start,
    Authenticate(i32),
    GetUser,
    Account(i32),
    End(i32),
}

struct FakePam {
    start_status: i32,
    auth_status: i32,
    account_status: i32,
    end_status: i32,
    start_null_handle: bool,
    auth_prompts: Vec<i32>,
    account_prompts: Vec<i32>,
    end_prompts: Vec<i32>,
    users: Vec<Vec<u8>>,
    user_statuses: Vec<i32>,
    user_index: usize,
    memory: Memory,
    calls: Vec<Call>,
    captured_passwords: Vec<Vec<u8>>,
}

impl FakePam {
    fn successful(user: &[u8]) -> Self {
        Self {
            start_status: PAM_SUCCESS,
            auth_status: PAM_SUCCESS,
            account_status: PAM_SUCCESS,
            end_status: PAM_SUCCESS,
            start_null_handle: false,
            auth_prompts: vec![PAM_PROMPT_ECHO_OFF],
            account_prompts: Vec::new(),
            end_prompts: Vec::new(),
            users: vec![user.to_vec(), user.to_vec()],
            user_statuses: vec![PAM_SUCCESS, PAM_SUCCESS],
            user_index: 0,
            memory: ENOUGH,
            calls: Vec::new(),
            captured_passwords: Vec::new(),
        }
    }

    fn invoke_conversation(&mut self, data: &mut ConversationData, prompts: &[i32]) -> i32 {
        if prompts.is_empty() {
            return PAM_SUCCESS;
        }
        let (reply, buffer) = call_with(data, prompts, self.memory);
        if reply.code == PAM_SUCCESS {
            if let Some(index) = reply.password_index {
                assert_eq!(prompts[index], PAM_PROMPT_ECHO_OFF);
                self.captured_passwords.push(text_of(&buffer).to_vec());
            }
        } else {
            assert_eq!(reply.password_index, None);
        }
        reply.code
    }

    fn ends(&self) -> usize {
        self.calls.iter().filter(|call| matches!(call, Call::End(_))).count()
    }
}

fn authenticate_with(
    fake: &mut FakePam,
    user: &[u8],
    secret: LockedSecret,
) -> Result<PamOutcome, PamError> {
    let authenticator = PamAuthenticator::new(disable_process_dumps(0, 0).unwrap());
    let mut transaction = authenticator.authenticate(user)?;
    let mut data = ConversationData::new(secret);
    let mut step = PamStep::Call(PamCall::Start);
    loop {
        let call = match step {
            PamStep::Done(verdict) => return verdict,
            PamStep::Call(call) => call,
        };
        step = match call {
            PamCall::Start => {
                fake.calls.push(Call::Start);
                let has_handle = fake.start_status == PAM_SUCCESS && !fake.start_null_handle;
                transaction.started(fake.start_status, has_handle)
            }
            PamCall::Authenticate { flags } => {
                fake.calls.push(Call::Authenticate(flags));
                let prompts = fake.auth_prompts.clone();
                let spoken = fake.invoke_conversation(&mut data, &prompts);
                let status = if spoken == PAM_SUCCESS { fake.auth_status } else { PAM_AUTH_ERR };
                transaction.authenticated(status, data.failure())
            }
            PamCall::GetUser => {
                fake.calls.push(Call::GetUser);
                let index = fake.user_index;
                fake.user_index += 1;
                let status = fake.user_statuses[index];
                let name = if status == PAM_SUCCESS { Some(&fake.users[index][..]) } else { None };
                transaction.user_read(status, name)
            }
            PamCall::Account { flags } => {
                fake.calls.push(Call::Account(flags));
                let prompts = fake.account_prompts.clone();
                let spoken = fake.invoke_conversation(&mut data, &prompts);
                let status =
                    if spoken == PAM_SUCCESS { fake.account_status } else { PAM_AUTH_ERR };
                transaction.account_managed(status, data.failure())
            }
            PamCall::End { status } => {
                fake.calls.push(Call::End(status));
                let prompts = fake.end_prompts.clone();
                let _ = fake.invoke_conversation(&mut data, &prompts);
                transaction.ended(fake.end_status, data.failure())
            }
        };
    }
}

#[test]
fn successful_pipeline_finishes_before_returning_authenticated() {
    let user = b"alice";
    let mut fake = FakePam::successful(user);
    let outcome = authenticate_with(&mut fake, user, password("secret")).unwrap();
    assert_eq!(outcome, PamOutcome::Authenticated);
    assert_eq!(
        fake.calls,
        [
            Call::Start,
            Call::Authenticate(0),
            Call::GetUser,
            Call::Account(0),
            Call::GetUser,
            Call::End(PAM_SUCCESS),
        ]
    );
    assert_eq!(fake.captured_passwords, [b"secret"]);
}

#[test]
fn mod_accepts_an_empty_password() {
    let user = b"alice";
    let mut fake = FakePam::successful(user);
    assert_eq!(
        authenticate_with(&mut fake, user, password("")).unwrap(),
        PamOutcome::Authenticated
    );
    assert!(fake.captured_passwords[0].is_empty());
}

#[test]
fn authentication_denial_still_finishes_with_raw_status() {
    let user = b"alice";
    let mut fake = FakePam::successful(user);
    fake.auth_status = PAM_AUTH_ERR;
    let outcome = authenticate_with(&mut fake, user, password("wrong")).unwrap();
    assert_eq!(outcome, PamOutcome::Denied(PamDenial::Credentials));
    assert_eq!(fake.calls.last(), Some(&Call::End(PAM_AUTH_ERR)));
}

#[test]
fn account_denial_does_not_change_authentication_token() {
    let user = b"alice";
    let mut fake = FakePam::successful(user);
    fake.account_status = PAM_ACCT_EXPIRED;
    let outcome = authenticate_with(&mut fake, user, password("secret")).unwrap();
    assert_eq!(outcome, PamOutcome::Denied(PamDenial::AccountPolicy));
    assert_eq!(fake.calls.last(), Some(&Call::End(PAM_ACCT_EXPIRED)));
}

#[test]
fn pam_end_failure_overrides_success_or_denial() {
    let user = b"alice";
    for auth_status in [PAM_SUCCESS, PAM_AUTH_ERR] {
        let mut fake = FakePam::successful(user);
        fake.auth_status = auth_status;
        fake.end_status = PAM_SYSTEM_ERR;
        let error = authenticate_with(&mut fake, user, password("secret")).unwrap_err();
        assert_eq!(error.stage(), PamErrorStage::End);
        assert_eq!(error.kind(), PamErrorKind::Internal);
        assert_eq!(fake.ends(), 1);
    }
}

#[test]
fn start_failure_or_null_success_handle_fails_closed() {
    let user = b"alice";
    let mut failed = FakePam::successful(user);
    failed.start_status = PAM_SERVICE_ERR;
    let error = authenticate_with(&mut failed, user, password("secret")).unwrap_err();
    assert_eq!(error.stage(), PamErrorStage::Start);
    assert_eq!(error.code(), Some(PAM_SERVICE_ERR));
    assert_eq!(failed.ends(), 0);

    let mut null = FakePam::successful(user);
    null.start_null_handle = true;
    let error = authenticate_with(&mut null, user, password("secret")).unwrap_err();
    assert_eq!(error.kind(), PamErrorKind::Internal);
    assert_eq!(null.ends(), 0);
}

#[test]
fn changed_user_fails_before_account_or_after_account() {
    let expected = b"alice";
    for users in [
        vec![b"mallory".to_vec(), expected.to_vec()],
        vec![expected.to_vec(), b"mallory".to_vec()],
    ] {
        let mut fake = FakePam::successful(expected);
        fake.users = users;
        let error = authenticate_with(&mut fake, expected, password("secret")).unwrap_err();
        assert_eq!(error.stage(), PamErrorStage::UserCheck);
        assert_eq!(fake.calls.last(), Some(&Call::End(PAM_SUCCESS)));
    }
}

#[test]
fn get_user_failure_finishes_with_its_raw_status() {
    let user = b"alice";
    for failing_index in 0..2 {
        let mut fake = FakePam::successful(user);
        fake.user_statuses[failing_index] = PAM_SYSTEM_ERR;
        let error = authenticate_with(&mut fake, user, password("secret")).unwrap_err();
        assert_eq!(error.stage(), PamErrorStage::UserCheck);
        assert_eq!(fake.calls.last(), Some(&Call::End(PAM_SYSTEM_ERR)));
    }
}

#[test]
fn callback_protocol_failure_is_not_downgraded_to_bad_password() {
    let user = b"alice";
    let mut fake = FakePam::successful(user);
    fake.auth_prompts = vec![PAM_PROMPT_ECHO_ON];
    let error = authenticate_with(&mut fake, user, password("secret")).unwrap_err();
    assert_eq!(error.stage(), PamErrorStage::Conversation);
    assert_eq!(error.kind(), PamErrorKind::ConversationProtocol);
}

#[test]
fn account_or_end_conversation_cannot_request_another_password() {
    let user = b"alice";
    for during_end in [false, true] {
        let mut fake = FakePam::successful(user);
        if during_end {
            fake.end_prompts = vec![PAM_PROMPT_ECHO_OFF];
        } else {
            fake.account_prompts = vec![PAM_PROMPT_ECHO_OFF];
        }
        let error = authenticate_with(&mut fake, user, password("secret")).unwrap_err();
        assert_eq!(error.stage(), PamErrorStage::Conversation);
        assert_eq!(error.kind(), PamErrorKind::ConversationProtocol);
        assert_eq!(fake.ends(), 1);
    }
}

#[test]
fn end_echo_on_failure_overrides_candidate_success() {
    let user = b"alice";
    let mut fake = FakePam::successful(user);
    fake.end_prompts = vec![PAM_PROMPT_ECHO_ON];
    let error = authenticate_with(&mut fake, user, password("secret")).unwrap_err();
    assert_eq!(error.stage(), PamErrorStage::Conversation);
    assert_eq!(error.kind(), PamErrorKind::ConversationProtocol);
    assert_eq!(fake.calls.last(), Some(&Call::End(PAM_SUCCESS)));
}

#[test]
fn response_allocation_failure_remains_systemic_through_transaction() {
    let user = b"alice";
    for memory in [
        Memory { array: false, buffer: false },
        Memory { array: true, buffer: false },
    ] {
        let mut fake = FakePam::successful(user);
        fake.memory = memory;
        let error = authenticate_with(&mut fake, user, password("secret")).unwrap_err();
        assert_eq!(error.stage(), PamErrorStage::Conversation);
        assert_eq!(error.kind(), PamErrorKind::ResourceFailure);
        assert_eq!(fake.calls.last(), Some(&Call::End(PAM_AUTH_ERR)));
    }
}

#[test]
fn a_transaction_that_is_given_up_ends_with_its_last_status() {
    let mut transaction = PamTransaction::begin(b"alice").unwrap();
    let step = transaction.started(PAM_SUCCESS, true);
    assert_eq!(step, PamStep::Call(PamCall::Authenticate { flags: 0 }));
    assert_eq!(transaction.last_status(), PAM_SUCCESS);
}

#[test]
fn credential_denials_are_not_backend_errors() {
    for code in [PAM_AUTH_ERR, PAM_USER_UNKNOWN, PAM_MAXTRIES] {
        assert_eq!(classify_authenticate(code), Err(Ok(PamDenial::Credentials)));
    }
}

#[test]
fn account_policy_denials_are_grouped() {
    for code in [
        PAM_PERM_DENIED,
        PAM_AUTH_ERR,
        PAM_USER_UNKNOWN,
        PAM_MAXTRIES,
        PAM_NEW_AUTHTOK_REQD,
        PAM_ACCT_EXPIRED,
        PAM_CRED_EXPIRED,
        PAM_AUTHTOK_EXPIRED,
    ] {
        assert_eq!(classify_account(code), Err(Ok(PamDenial::AccountPolicy)));
    }
}

#[test]
fn explicit_non_denial_codes_have_stable_categories() {
    for code in [
        PAM_OPEN_ERR,
        PAM_SYMBOL_ERR,
        PAM_SERVICE_ERR,
        PAM_SYSTEM_ERR,
        PAM_CRED_INSUFFICIENT,
        PAM_AUTHINFO_UNAVAIL,
        PAM_CRED_UNAVAIL,
        PAM_MODULE_UNKNOWN,
    ] {
        assert_eq!(classify_error_code(code), PamErrorKind::BackendUnavailable);
    }
    for code in [PAM_CONV_ERR, PAM_CONV_AGAIN, PAM_INCOMPLETE] {
        assert_eq!(classify_error_code(code), PamErrorKind::ConversationProtocol);
    }
    assert_eq!(classify_error_code(PAM_BUF_ERR), PamErrorKind::ResourceFailure);
    for code in [
        PAM_SESSION_ERR,
        PAM_CRED_EXPIRED,
        PAM_CRED_ERR,
        PAM_NO_MODULE_DATA,
        PAM_AUTHTOK_ERR,
        PAM_AUTHTOK_RECOVERY_ERR,
        PAM_AUTHTOK_LOCK_BUSY,
        PAM_AUTHTOK_DISABLE_AGING,
        PAM_TRY_AGAIN,
        PAM_IGNORE,
        PAM_ABORT,
        PAM_AUTHTOK_EXPIRED,
        PAM_BAD_ITEM,
    ] {
        assert_eq!(classify_error_code(code), PamErrorKind::Internal);
    }
}

#[test]
fn unknown_codes_fail_internal() {
    assert_eq!(classify_authenticate(12345), Err(Err(PamErrorKind::Internal)));
    assert_eq!(classify_account(-1), Err(Err(PamErrorKind::Internal)));
}

#[test]
fn rejects_uid_or_gid_mismatch() {
    assert!(validate_process_ids(1000, 1001, 1000, 1000).is_err());
    assert!(validate_process_ids(1000, 1000, 1000, 1001).is_err());
    assert!(validate_process_ids(1000, 1000, 1000, 1000).is_ok());
}

#[test]
fn lookups_grow_their_buffer_up_to_a_limit() {
    let mut size = first_buffer_size(-1);
    assert_eq!(size, DEFAULT_NSS_BUFFER);
    assert_eq!(first_buffer_size(1), MIN_NSS_BUFFER);
    assert_eq!(first_buffer_size(i64::MAX), MAX_NSS_BUFFER);
    let mut attempts = 0;
    loop {
        match after_lookup(1000, size, ERANGE, None) {
            LookupStep::Retry { size: larger } => {
                assert!(larger > size && larger <= MAX_NSS_BUFFER);
                size = larger;
                attempts += 1;
            }
            LookupStep::Failed(error) => {
                assert!(matches!(error, IdentityError::BufferLimit));
                break;
            }
            LookupStep::Found(_) => panic!("nothing was found"),
        }
    }
    assert_eq!(attempts, 6);

    let record = |uid: u32, name: &[u8]| Some(PasswdRecord { uid, name: Some(name.to_vec()) });
    let LookupStep::Found(identity) = after_lookup(1000, size, 0, record(1000, b"alice")) else {
        panic!("a matching record names the user");
    };
    assert_eq!(identity.uid(), 1000);
    assert_eq!(identity.into_username(), b"alice");
    for bad in [record(1001, b"alice"), record(1000, b""), record(1000, b"a\0b")] {
        assert!(matches!(
            after_lookup(1000, size, 0, bad),
            LookupStep::Failed(IdentityError::InvalidRecord)
        ));
    }
    assert!(matches!(
        after_lookup(1000, size, 0, None),
        LookupStep::Failed(IdentityError::UserNotFound)
    ));
    assert!(matches!(
        after_lookup(1000, size, 5, None),
        LookupStep::Failed(IdentityError::Lookup(5))
    ));
}

#[test]
fn worker_tags_one_coarse_result() {
    let attempt = AttemptId::new(7);
    let decision = decide(Ok(PamOutcome::Authenticated));
    let reply = reply_to(attempt, Some(decision));
    assert_eq!(reply.attempt, attempt);
    assert_eq!(reply.decision, AuthDecision::Authenticated);
    assert!(keeps_serving(Some(decision), true));
    assert_eq!(
        decide(Ok(PamOutcome::Denied(PamDenial::Credentials))),
        AuthDecision::Denied
    );
    assert_eq!(
        decide(Err(PamError::from_code(PamErrorStage::Start, PAM_SERVICE_ERR))),
        AuthDecision::SystemFailure
    );
}

#[test]
fn backend_panic_becomes_system_failure_and_closes_worker() {
    let attempt = AttemptId::new(8);
    let reply = reply_to(attempt, None);
    assert_eq!(reply.attempt, attempt);
    assert_eq!(reply.decision, AuthDecision::SystemFailure);
    assert!(!keeps_serving(None, true));
}

#[test]
fn edits_utf8_without_reallocation() {
    let mut secret = new_secret();
    secret.append("a\u{754c}").unwrap();
    assert_eq!(secret.len(), 4);
    assert!(secret.delete_last_scalar());
    assert_eq!(secret.as_bytes(), b"a");
    assert!(secret.delete_last_scalar());
    assert!(secret.is_empty());
    assert!(!secret.delete_last_scalar());
}

#[test]
fn rejects_nul_and_over_limit_without_partial_append() {
    let mut secret = new_secret();
    assert!(matches!(secret.append("a\0b"), Err(SecretError::ContainsNul)));
    assert!(secret.is_empty());

    let maximum = "x".repeat(MAX_PASSWORD_BYTES);
    secret.append(&maximum).unwrap();
    assert_eq!(secret.len(), MAX_PASSWORD_BYTES);
    secret.clear();

    let oversized = "x".repeat(MAX_PASSWORD_BYTES + 1);
    assert!(matches!(secret.append(&oversized), Err(SecretError::TooLong)));
    assert!(secret.is_empty());
}

#[test]
fn clear_wipes_the_full_mapping() {
    let mut secret = password("sensitive");
    secret.clear();
    assert!(secret.is_empty());
    assert!(secret.mapping().iter().all(|byte| *byte == 0));
}

#[test]
fn deleting_wipes_what_it_removes() {
    let mut secret = password("ab\u{1f600}");
    assert!(secret.delete_last_scalar());
    assert_eq!(secret.as_bytes(), b"ab");
    assert!(secret.mapping()[2..].iter().all(|byte| *byte == 0));
}

#[test]
fn pages_are_rounded_and_refused() {
    assert_eq!(page_size(4096), Some(4096));
    assert_eq!(page_size(0), None);
    assert_eq!(page_size(-1), None);
    assert!(LockedSecret::new(-1).is_err());
}

#[test]
fn memory_is_locked_with_bounded_patience() {
    assert_eq!(after_lock_attempt(None, 0), MemoryLock::Locked);
    assert_eq!(after_lock_attempt(Some(EPERM), 0), MemoryLock::Unavailable);
    assert_eq!(after_lock_attempt(Some(ENOSYS), 3), MemoryLock::Unavailable);
    let mut failures = 0;
    while let MemoryLock::Retry { eagain_failures } = after_lock_attempt(Some(EAGAIN), failures) {
        assert_eq!(eagain_failures, failures + 1);
        failures = eagain_failures;
    }
    assert_eq!(failures, MLOCK_EAGAIN_RETRIES - 1);
    assert_eq!(after_lock_attempt(Some(EAGAIN), failures), MemoryLock::Failed(EAGAIN));
    assert_eq!(after_lock_attempt(Some(12), 0), MemoryLock::Failed(12));
}

#[test]
fn dumps_that_cannot_be_disabled_are_reported() {
    assert!(disable_process_dumps(0, 0).is_ok());
    assert_eq!(disable_process_dumps(-1, EPERM).err(), Some(EPERM));
}

#[test]
fn pages_cover_their_memory_and_no_more() {
    assert_eq!(covering_pages(8_192, 4_096, 4_096), (8_192, 4_096));
    assert_eq!(covering_pages(8_200, 4_096, 4_096), (8_192, 8_192));
    assert_eq!(covering_pages(8_200, 10, 4_096), (8_192, 4_096));
    assert_eq!(covering_pages(8_191, 2, 4_096), (4_096, 8_192));
    assert_eq!(covering_pages(8_192, 0, 4_096), (8_192, 0));
}
