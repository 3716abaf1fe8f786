//! Authentication: what the status codes mean, in what order the calls come, who gets the password,
//! and how it is kept.

use vstd::prelude::*;
use vstd::utf8;

use crate::lock::pam::conversation;
use crate::lock::pam::conversation::{CallbackFailure, ConversationData, ConversationReply};
use crate::lock::pam::error;
use crate::lock::pam::error::{PamDenial, PamError, PamErrorKind, PamErrorStage};
use crate::lock::pam::secret;
use crate::lock::pam::secret::{LockedSecret, MemoryLock, ProcessDumpProtection, SecretError};
use crate::lock::pam::transaction::{
    PamAuthenticator, PamCall, PamOutcome, PamStage, PamStep, PamTransaction,
};
use crate::lock::state::{AttemptId, AuthDecision};
use crate::lock::worker;
use crate::lock::worker::AuthReply;

verus! {

/// Success is the code zero and nothing else. A wrong password, an unknown user and too many tries
/// refuse the credentials; these and an account that is forbidden, expired or in need of a new
/// password refuse the account. Every other code is a failure of the backend, of one kind whichever
/// of the two calls it comes from.
pub proof fn lemma_what_the_status_codes_mean(
    code: i32,
    authenticated: Result<(), Result<PamDenial, PamErrorKind>>,
    managed: Result<(), Result<PamDenial, PamErrorKind>>,
    kind: PamErrorKind,
)
    requires
        call_ensures(error::classify_authenticate, (code,), authenticated),
        call_ensures(error::classify_account, (code,), managed),
        call_ensures(error::classify_error_code, (code,), kind),
    ensures
        authenticated is Ok <==> code == 0,
        managed is Ok <==> code == 0,
        code == 7 || code == 10 || code == 11 <==> authenticated == Err::<
            (),
            Result<PamDenial, PamErrorKind>,
        >(Ok(PamDenial::Credentials)),
        code == 6 || code == 7 || code == 10 || code == 11 || code == 12 || code == 13 || code == 16
            || code == 27 <==> managed == Err::<(), Result<PamDenial, PamErrorKind>>(
            Ok(PamDenial::AccountPolicy),
        ),
        authenticated is Err && authenticated->Err_0 is Err ==> authenticated->Err_0->Err_0 == kind,
        managed is Err && managed->Err_0 is Err ==> managed->Err_0->Err_0 == kind,
        authenticated != Err::<(), Result<PamDenial, PamErrorKind>>(Ok(PamDenial::AccountPolicy)),
        managed != Err::<(), Result<PamDenial, PamErrorKind>>(Ok(PamDenial::Credentials)),
        kind is BackendUnavailable <==> 1 <= code <= 4 || code == 8 || code == 9 || code == 15
            || code == 28,
        kind is ConversationProtocol <==> code == 19 || code == 30 || code == 31,
        kind is ResourceFailure <==> code == 5,
{
}

/// An error says at which stage it came up, of which kind it is and with which code, as it was made.
pub proof fn lemma_an_error_says_what_it_was_made_of(
    stage: PamErrorStage,
    kind: PamErrorKind,
    code: Option<i32>,
    status: i32,
    made: PamError,
    coded: PamError,
    kind_of_status: PamErrorKind,
    told: (PamErrorStage, PamErrorKind, Option<i32>),
)
    requires
        call_ensures(PamError::new, (stage, kind, code), made),
        call_ensures(PamError::stage, (made,), told.0),
        call_ensures(PamError::kind, (made,), told.1),
        call_ensures(PamError::code, (made,), told.2),
        call_ensures(PamError::from_code, (stage, status), coded),
        call_ensures(error::classify_error_code, (status,), kind_of_status),
    ensures
        told == (stage, kind, code),
        coded == (PamError { stage, kind: kind_of_status, code: Some(status) }),
{
}

/// The verdict of a transaction reaches the lock unchanged: authenticated, refused whatever the
/// reason, or a failure of the system. A backend that came to no verdict counts as such a failure
/// and is not asked again, and no reply is given under another attempt's number.
pub proof fn lemma_the_verdict_reaches_the_lock(
    denial: PamDenial,
    error: PamError,
    attempt: AttemptId,
    decision: Option<AuthDecision>,
    delivered: bool,
    accepted: AuthDecision,
    denied: AuthDecision,
    failed: AuthDecision,
    reply: AuthReply,
    serving: bool,
)
    requires
        call_ensures(
            worker::decide,
            (Ok::<PamOutcome, PamError>(PamOutcome::Authenticated),),
            accepted,
        ),
        call_ensures(
            worker::decide,
            (Ok::<PamOutcome, PamError>(PamOutcome::Denied(denial)),),
            denied,
        ),
        call_ensures(worker::decide, (Err::<PamOutcome, PamError>(error),), failed),
        call_ensures(worker::reply_to, (attempt, decision), reply),
        call_ensures(worker::keeps_serving, (decision, delivered), serving),
    ensures
        accepted is Authenticated,
        denied is Denied,
        failed is SystemFailure,
        reply.attempt.0 == attempt.0,
        decision is Some ==> reply.decision == decision->0,
        decision is None ==> reply.decision is SystemFailure && !serving,
        serving <==> decision is Some && delivered,
{
}

/// A transaction begins for a user with a name and for no other, and its first call starts it. What
/// it began with is the name it will ask for.
pub proof fn lemma_a_transaction_needs_a_user(
    protection: ProcessDumpProtection,
    authenticator: PamAuthenticator,
    user: &[u8],
    begun: Result<PamTransaction, PamError>,
)
    requires
        call_ensures(PamAuthenticator::new, (protection,), authenticator),
        call_ensures(PamAuthenticator::authenticate, (&authenticator, user), begun),
    ensures
        begun is Ok <==> user@.len() > 0,
        begun is Ok ==> begun->Ok_0@.expected_user == user@ && begun->Ok_0@.stage is Starting,
        begun is Err ==> begun->Err_0 == (PamError {
            stage: PamErrorStage::Start,
            kind: PamErrorKind::Internal,
            code: None,
        }),
{
}

/// A start that fails, or that leaves no handle, ends the transaction at once with an error of that
/// stage. Otherwise authentication is asked for, with no flags.
pub proof fn lemma_a_start_leads_to_authentication(
    started: &mut PamTransaction,
    status: i32,
    has_handle: bool,
    step: PamStep,
    kind: PamErrorKind,
)
    requires
        old(started)@.stage is Starting,
        call_ensures(PamTransaction::started, (started, status, has_handle), step),
        call_ensures(error::classify_error_code, (status,), kind),
    ensures
        status == 0 && has_handle <==> step == PamStep::Call(PamCall::Authenticate { flags: 0 }),
        status == 0 && has_handle ==> final(started)@.stage is Authenticating,
        status != 0 ==> step == PamStep::Done(
            Err(PamError { stage: PamErrorStage::Start, kind, code: Some(status) }),
        ),
        status == 0 && !has_handle ==> step == PamStep::Done(
            Err(
                PamError {
                    stage: PamErrorStage::Start,
                    kind: PamErrorKind::Internal,
                    code: Some(0),
                },
            ),
        ),
        step is Done ==> final(started)@.stage is Finished,
        final(started)@.expected_user == old(started)@.expected_user,
{
}

/// An authentication that succeeds is followed by a check of the user. One that is refused, one
/// that fails, and one whose conversation failed are ended with their status, and what the end
/// gives back, where it succeeds itself, is that refusal or that failure.
pub proof fn lemma_an_authentication_is_checked(
    authenticated: &mut PamTransaction,
    ended: &mut PamTransaction,
    status: i32,
    failure: Option<CallbackFailure>,
    step: PamStep,
    verdict: PamStep,
    class: Result<(), Result<PamDenial, PamErrorKind>>,
)
    requires
        old(authenticated)@.stage is Authenticating,
        call_ensures(PamTransaction::authenticated, (authenticated, status, failure), step),
        call_ensures(error::classify_authenticate, (status,), class),
        *old(ended) == *final(authenticated),
        call_ensures(PamTransaction::ended, (ended, 0, None::<CallbackFailure>), verdict),
    ensures
        status == 0 && failure is None <==> step == PamStep::Call(PamCall::GetUser),
        status == 0 && failure is None ==> final(authenticated)@.stage == (
        PamStage::CheckingUser { account_managed: false }),
        status != 0 || failure is Some ==> step == PamStep::Call(PamCall::End { status }),
        failure is None && class is Err && class->Err_0 is Ok ==> verdict == PamStep::Done(
            Ok(PamOutcome::Denied(PamDenial::Credentials)),
        ),
        failure is None && class is Err && class->Err_0 is Err ==> verdict == PamStep::Done(
            Err(
                PamError {
                    stage: PamErrorStage::Authenticate,
                    kind: class->Err_0->Err_0,
                    code: Some(status),
                },
            ),
        ),
        failure is Some ==> verdict == PamStep::Done(Err(of_conversation(failure->0))),
        final(authenticated)@.expected_user == old(authenticated)@.expected_user,
{
}

/// The error that a failed conversation leads to.
pub open spec fn of_conversation(failure: CallbackFailure) -> PamError {
    PamError {
        stage: PamErrorStage::Conversation,
        kind: match failure {
            CallbackFailure::Protocol => PamErrorKind::ConversationProtocol,
            CallbackFailure::Resource => PamErrorKind::ResourceFailure,
            CallbackFailure::Panicked => PamErrorKind::Internal,
        },
        code: None,
    }
}

/// The user is checked twice, before and after the account. A name that is not the expected one
/// byte for byte, a missing one, and a failed call each time end the transaction with an error; the
/// expected one leads to the account the first time, and to a success the second.
pub proof fn lemma_the_user_is_checked_before_and_after_the_account(
    first: &mut PamTransaction,
    second: &mut PamTransaction,
    ended: &mut PamTransaction,
    status: i32,
    name: Option<&[u8]>,
    step: PamStep,
    step_after: PamStep,
    verdict: PamStep,
)
    requires
        old(first)@.stage == (PamStage::CheckingUser { account_managed: false }),
        call_ensures(PamTransaction::user_read, (first, status, name), step),
        old(second)@.stage == (PamStage::CheckingUser { account_managed: true }),
        call_ensures(PamTransaction::user_read, (second, status, name), step_after),
        *old(ended) == *final(second),
        call_ensures(PamTransaction::ended, (ended, 0, None::<CallbackFailure>), verdict),
    ensures
        step == PamStep::Call(PamCall::Account { flags: 0 }) <==> status == 0 && name is Some
            && name->0@ == old(first)@.expected_user,
        step == PamStep::Call(PamCall::Account { flags: 0 }) ==> final(first)@.stage is ManagingAccount,
        step != PamStep::Call(PamCall::Account { flags: 0 }) ==> step == PamStep::Call(
            PamCall::End { status },
        ),
        step_after == PamStep::Call(PamCall::End { status }),
        status == 0 && name is Some && name->0@ == old(second)@.expected_user <==> verdict
            == PamStep::Done(Ok(PamOutcome::Authenticated)),
        !(status == 0 && name is Some && name->0@ == old(second)@.expected_user) ==> verdict
            == PamStep::Done(
            Err(
                PamError {
                    stage: PamErrorStage::UserCheck,
                    kind: PamErrorKind::Internal,
                    code: Some(status),
                },
            ),
        ),
{
}

/// An account that is in order is followed by the second check of the user. One that is refused, one
/// that fails, and one whose conversation failed are ended with their status, and give what they
/// came to.
pub proof fn lemma_an_account_is_followed_by_a_second_check(
    managed: &mut PamTransaction,
    ended: &mut PamTransaction,
    status: i32,
    failure: Option<CallbackFailure>,
    step: PamStep,
    verdict: PamStep,
    class: Result<(), Result<PamDenial, PamErrorKind>>,
)
    requires
        old(managed)@.stage is ManagingAccount,
        call_ensures(PamTransaction::account_managed, (managed, status, failure), step),
        call_ensures(error::classify_account, (status,), class),
        *old(ended) == *final(managed),
        call_ensures(PamTransaction::ended, (ended, 0, None::<CallbackFailure>), verdict),
    ensures
        status == 0 && failure is None <==> step == PamStep::Call(PamCall::GetUser),
        status == 0 && failure is None ==> final(managed)@.stage == (PamStage::CheckingUser {
            account_managed: true,
        }),
        status != 0 || failure is Some ==> step == PamStep::Call(PamCall::End { status }),
        failure is None && class is Err && class->Err_0 is Ok ==> verdict == PamStep::Done(
            Ok(PamOutcome::Denied(PamDenial::AccountPolicy)),
        ),
        failure is None && class is Err && class->Err_0 is Err ==> verdict == PamStep::Done(
            Err(
                PamError {
                    stage: PamErrorStage::Account,
                    kind: class->Err_0->Err_0,
                    code: Some(status),
                },
            ),
        ),
        failure is Some ==> verdict == PamStep::Done(Err(of_conversation(failure->0))),
        final(managed)@.expected_user == old(managed)@.expected_user,
{
}

/// An end that fails, or a conversation that failed by then, overrides what the transaction had come
/// to, a success included.
pub proof fn lemma_a_failed_end_overrides_everything(
    ended: &mut PamTransaction,
    status: i32,
    failure: Option<CallbackFailure>,
    step: PamStep,
    last: i32,
)
    requires
        old(ended)@.stage is Ending,
        call_ensures(PamTransaction::ended, (ended, status, failure), step),
        call_ensures(PamTransaction::last_status, (&*old(ended),), last),
    ensures
        status != 0 ==> step == PamStep::Done(
            Err(
                PamError {
                    stage: PamErrorStage::End,
                    kind: PamErrorKind::Internal,
                    code: Some(status),
                },
            ),
        ),
        status == 0 && failure is Some ==> step == PamStep::Done(Err(of_conversation(failure->0))),
        status == 0 && failure is None ==> step == PamStep::Done(old(ended)@.stage->candidate),
        final(ended)@.stage is Finished,
        last == old(ended)@.last_status,
{
}

/// Whether every message of a batch is a hidden prompt, an error text or an information, and none
/// is missing.
pub open spec fn is_answerable(styles: Seq<Option<i32>>) -> bool {
    forall|i: int|
        0 <= i < styles.len() ==> #[trigger] styles[i] == Some(1i32) || styles[i] == Some(3i32)
            || styles[i] == Some(4i32)
}

/// The password goes to the one hidden prompt of a batch, once: it is written to the buffer with
/// zeros behind it up to 512 bytes, and the prompt's place is told. The conversation has no password
/// any more, and answers no other prompt with one.
pub proof fn lemma_the_password_goes_to_the_one_hidden_prompt(
    data: &mut ConversationData,
    again: &mut ConversationData,
    num_msg: i32,
    styles: &[Option<i32>],
    more: i32,
    more_styles: &[Option<i32>],
    buffer: &mut [u8],
    second_buffer: &mut [u8],
    reply: ConversationReply,
    second: ConversationReply,
    prompt: int,
    other: int,
    present: bool,
)
    requires
        old(data).wf(),
        old(data)@.password is Some,
        !old(data)@.password_consumed,
        old(data)@.failure is None,
        utf8::encode_utf8(old(data)@.password->0).len() < 512,
        1 <= num_msg <= 32,
        styles@.len() == num_msg,
        is_answerable(styles@),
        0 <= prompt < styles@.len(),
        styles@[prompt] == Some(1i32),
        forall|i: int| 0 <= i < styles@.len() && i != prompt ==> #[trigger] styles@[i] != Some(1i32),
        old(buffer)@.len() >= 512,
        call_ensures(
            ConversationData::converse,
            (data, num_msg, Some(styles), true, buffer),
            reply,
        ),
        call_ensures(ConversationData::has_password, (&*final(data),), present),
        *old(again) == *final(data),
        1 <= more <= 32 ==> more_styles@.len() == more,
        0 <= other < more_styles@.len(),
        more_styles@[other] == Some(1i32),
        call_ensures(
            ConversationData::converse,
            (again, more, Some(more_styles), true, second_buffer),
            second,
        ),
    ensures
        reply.code == 0,
        reply.password_index == Some(prompt as usize),
        final(buffer)@.len() == old(buffer)@.len(),
        final(buffer)@.take(utf8::encode_utf8(old(data)@.password->0).len() as int)
            == utf8::encode_utf8(old(data)@.password->0),
        forall|i: int|
            utf8::encode_utf8(old(data)@.password->0).len() <= i < 512 ==> #[trigger] final(buffer)@[i] == 0,
        forall|i: int| 512 <= i < old(buffer)@.len() ==> #[trigger] final(buffer)@[i] == old(buffer)@[i],
        !present,
        second.code != 0,
        second.password_index is None,
        final(second_buffer)@ == old(second_buffer)@,
{
    assert forall|i: int| 0 <= i < styles@.len() implies conversation::asks_for_password(
        #[trigger] styles@[i],
    ) || conversation::is_silent(styles@[i]) by {
        assert(styles@[i] == Some(1i32) || styles@[i] == Some(3i32) || styles@[i] == Some(4i32));
    }
    assert(conversation::batch_valid(styles@, true));
    assert(conversation::asks_for_password(styles@[prompt]));
    let chosen = choose|i: int|
        0 <= i < styles@.len() && conversation::asks_for_password(#[trigger] styles@[i]);
    assert(0 <= chosen < styles@.len() && conversation::asks_for_password(styles@[chosen]));
    assert(chosen == prompt);
    assert(conversation::asks_for_password(more_styles@[other]));
    assert(!conversation::batch_valid(more_styles@, false));
    assert(final(buffer)@.take(utf8::encode_utf8(old(data)@.password->0).len() as int)
        =~= utf8::encode_utf8(old(data)@.password->0));
}

/// A batch without a prompt is answered with nothing and keeps the password. One of no or of more
/// than 32 messages, one that is not there, one with another message than those three kinds or with
/// two prompts, and one whose answer finds no memory are refused; the password stays unless it was
/// asked for and found no room. After a refusal every batch is refused.
pub proof fn lemma_what_a_batch_is_answered(
    data: &mut ConversationData,
    again: &mut ConversationData,
    num_msg: i32,
    styles: Option<&[Option<i32>]>,
    allocated: bool,
    buffer: &mut [u8],
    later_buffer: &mut [u8],
    reply: ConversationReply,
    later: ConversationReply,
    later_num: i32,
    later_styles: Option<&[Option<i32>]>,
    failure: Option<CallbackFailure>,
)
    requires
        old(data).wf(),
        old(data)@.failure is None,
        1 <= num_msg <= 32 && styles is Some ==> styles->0@.len() == num_msg,
        call_ensures(
            ConversationData::converse,
            (data, num_msg, styles, allocated, buffer),
            reply,
        ),
        call_ensures(ConversationData::failure, (&*final(data),), failure),
        *old(again) == *final(data),
        1 <= later_num <= 32 && later_styles is Some ==> later_styles->0@.len() == later_num,
        call_ensures(
            ConversationData::converse,
            (again, later_num, later_styles, true, later_buffer),
            later,
        ),
    ensures
        num_msg < 1 || num_msg > 32 || styles is None || !is_answerable(styles->0@)
            ==> reply.code == 19 && failure == Some(CallbackFailure::Protocol) && final(data)@.password == old(data)@.password,
        1 <= num_msg <= 32 && styles is Some && two_prompts(styles->0@) ==> reply.code == 19
            && failure == Some(CallbackFailure::Protocol) && final(data)@.password == old(data)@.password,
        1 <= num_msg <= 32 && styles is Some && is_answerable(styles->0@) && no_prompt(styles->0@)
            && allocated ==> reply.code == 0 && reply.password_index is None && failure is None
            && final(data)@ == old(data)@,
        1 <= num_msg <= 32 && styles is Some && is_answerable(styles->0@) && no_prompt(styles->0@)
            && !allocated ==> reply.code == 5 && failure == Some(CallbackFailure::Resource)
            && final(data)@.password == old(data)@.password,
        reply.code != 0 <==> failure is Some,
        reply.code != 0 ==> reply.password_index is None && final(buffer)@ == old(buffer)@,
        reply.code != 0 ==> later.code == 19 && later.password_index is None && final(again)@
            == final(data)@ && final(later_buffer)@ == old(later_buffer)@,
{
    if styles is Some {
        let all = styles->0@;
        if is_answerable(all) {
            assert forall|i: int| 0 <= i < all.len() implies conversation::asks_for_password(
                #[trigger] all[i],
            ) || conversation::is_silent(all[i]) by {
                assert(all[i] == Some(1i32) || all[i] == Some(3i32) || all[i] == Some(4i32));
            }
        } else {
            let i = choose|i: int|
                0 <= i < all.len() && !(#[trigger] all[i] == Some(1i32) || all[i] == Some(3i32)
                    || all[i] == Some(4i32));
            assert(!(conversation::asks_for_password(all[i]) || conversation::is_silent(all[i])));
        }
        if two_prompts(all) {
            let (i, j) = choose|i: int, j: int|
                0 <= i < j < all.len() && #[trigger] all[i] == Some(1i32) && #[trigger] all[j]
                    == Some(1i32);
            assert(conversation::asks_for_password(all[i]));
            assert(conversation::asks_for_password(all[j]));
            assert(!conversation::batch_valid(all, true) && !conversation::batch_valid(all, false));
        }
        if no_prompt(all) {
            assert forall|i: int| 0 <= i < all.len() implies !conversation::asks_for_password(
                #[trigger] all[i],
            ) by {
                assert(all[i] != Some(1i32));
            }
        }
    }
}

pub open spec fn two_prompts(styles: Seq<Option<i32>>) -> bool {
    exists|i: int, j: int|
        0 <= i < j < styles.len() && #[trigger] styles[i] == Some(1i32) && #[trigger] styles[j]
            == Some(1i32)
}

pub open spec fn no_prompt(styles: Seq<Option<i32>>) -> bool {
    forall|i: int| 0 <= i < styles.len() ==> #[trigger] styles[i] != Some(1i32)
}

/// Only the first failure of a conversation is kept. A lack of memory is reported as such, every
/// other failure as one of the conversation.
pub proof fn lemma_the_first_failure_counts(
    password: LockedSecret,
    fresh: ConversationData,
    first: &mut ConversationData,
    second: &mut ConversationData,
    failure: CallbackFailure,
    later: CallbackFailure,
    code: i32,
    later_code: i32,
    kept: Option<CallbackFailure>,
    slots: (bool, bool),
    checked: Result<(), i32>,
)
    requires
        password.wf(),
        call_ensures(ConversationData::new, (password,), fresh),
        *old(first) == fresh,
        call_ensures(ConversationData::record_failure, (first, failure), code),
        *old(second) == *final(first),
        call_ensures(ConversationData::record_failure, (second, later), later_code),
        call_ensures(ConversationData::failure, (&*final(second),), kept),
        call_ensures(conversation::check_callback_slots, (slots.0, slots.1), checked),
    ensures
        fresh@.password == Some(password@) && fresh@.failure is None && !fresh@.password_consumed,
        kept == Some(failure),
        code == if failure is Resource {
            5i32
        } else {
            19i32
        },
        later_code == if later is Resource {
            5i32
        } else {
            19i32
        },
        final(second)@.password == Some(password@),
        checked is Ok <==> slots.0 && slots.1,
        checked is Err ==> checked->Err_0 == 19,
{
}

/// A secret gives back the bytes of exactly what was added, and adding is all or nothing: a null
/// byte and a 512th byte are refused and change nothing.
pub proof fn lemma_a_secret_gives_back_what_was_added(
    appended: &mut LockedSecret,
    text: &str,
    outcome: Result<(), SecretError>,
    bytes: &[u8],
    length: usize,
    empty: bool,
)
    requires
        old(appended).wf(),
        call_ensures(LockedSecret::append, (appended, text), outcome),
        call_ensures(LockedSecret::as_bytes, (&*final(appended),), bytes),
        call_ensures(LockedSecret::len, (&*final(appended),), length),
        call_ensures(LockedSecret::is_empty, (&*final(appended),), empty),
    ensures
        outcome is Ok <==> !utf8::encode_utf8(text@).contains(0u8) && utf8::encode_utf8(
            old(appended)@,
        ).len() + utf8::encode_utf8(text@).len() <= 511,
        outcome is Ok ==> bytes@ == utf8::encode_utf8(old(appended)@ + text@),
        outcome is Err ==> bytes@ == utf8::encode_utf8(old(appended)@),
        utf8::encode_utf8(text@).contains(0u8) <==> outcome == Err::<(), SecretError>(
            SecretError::ContainsNul,
        ),
        outcome is Err && !utf8::encode_utf8(text@).contains(0u8) ==> outcome->Err_0 is TooLong,
        length == bytes@.len(),
        empty <==> final(appended)@.len() == 0,
{
}

/// Deleting takes the last character of a secret and no other; wiping takes everything, to the last
/// byte that the secret occupies.
pub proof fn lemma_deleting_and_wiping(
    appended: &mut LockedSecret,
    deleted: &mut LockedSecret,
    wiped: &mut LockedSecret,
    none_left: &mut LockedSecret,
    text: &str,
    outcome: Result<(), SecretError>,
    taken: bool,
    more: bool,
    mapping: &[u8],
)
    requires
        old(appended).wf(),
        text@.len() == 1,
        call_ensures(LockedSecret::append, (appended, text), outcome),
        outcome is Ok,
        *old(deleted) == *final(appended),
        call_ensures(LockedSecret::delete_last_scalar, (deleted,), taken),
        *old(wiped) == *final(appended),
        call_ensures(LockedSecret::clear, (wiped,), ()),
        call_ensures(LockedSecret::mapping, (&*final(wiped),), mapping),
        *old(none_left) == *final(wiped),
        call_ensures(LockedSecret::delete_last_scalar, (none_left,), more),
    ensures
        taken,
        final(deleted)@ == old(appended)@,
        final(wiped)@.len() == 0,
        mapping@.len() == old(appended).storage().len(),
        forall|i: int| 0 <= i < mapping@.len() ==> #[trigger] mapping@[i] == 0,
        !more,
{
    assert((old(appended)@ + text@).drop_last() == old(appended)@);
}

/// Handing the password to a response writes its bytes and zeros up to 512 bytes and leaves the
/// secret empty. A response without that room gets nothing, and the secret stays.
pub proof fn lemma_a_response_takes_the_password_over(
    buffer: &mut [u8],
    secret: &mut LockedSecret,
    installed: Result<(), ()>,
    place: int,
)
    requires
        old(secret).wf(),
        call_ensures(conversation::install_password, (buffer, secret), installed),
        0 <= place < old(buffer)@.len(),
    ensures
        installed is Ok <==> old(buffer)@.len() >= 512,
        final(buffer)@.len() == old(buffer)@.len(),
        installed is Ok ==> final(secret)@.len() == 0,
        installed is Err ==> final(secret)@ == old(secret)@ && final(buffer)@ == old(buffer)@,
        installed is Ok && place < utf8::encode_utf8(old(secret)@).len() ==> final(buffer)@[place]
            == utf8::encode_utf8(old(secret)@)[place],
        installed is Ok && utf8::encode_utf8(old(secret)@).len() <= place < 512 ==> final(buffer)@[place] == 0,
        installed is Ok && place >= 512 && place >= utf8::encode_utf8(old(secret)@).len()
            ==> final(buffer)@[place] == old(buffer)@[place],
{
}

/// A secret is made in a page of the reported size if the page has room for 511 bytes and a
/// terminator. It is empty, and every byte of its page is zero.
pub proof fn lemma_a_new_secret_is_an_empty_page(
    reported: i64,
    made: Result<LockedSecret, SecretError>,
    size: Option<usize>,
)
    requires
        call_ensures(LockedSecret::new, (reported,), made),
        call_ensures(secret::page_size, (reported,), size),
    ensures
        made is Ok <==> 512 <= reported <= usize::MAX,
        made is Err ==> made->Err_0 is PageSizeUnavailable,
        made is Ok ==> made->Ok_0@.len() == 0 && made->Ok_0.storage().len() == reported && forall|
            i: int,
        |
            0 <= i < reported ==> #[trigger] made->Ok_0.storage()[i] == 0,
        size is Some <==> 0 < reported <= usize::MAX,
        size is Some ==> size->0 == reported,
{
}

/// The pages that are locked are whole, hold every byte of the memory, and no page is locked that
/// holds none of it.
pub proof fn lemma_locked_pages_cover_the_memory(
    address: usize,
    length: usize,
    page: usize,
    pages: (usize, usize),
    byte: int,
)
    requires
        page > 0,
        address + length + page <= usize::MAX,
        call_ensures(secret::covering_pages, (address, length, page), pages),
        address <= byte < address + length,
    ensures
        pages.0 <= byte < pages.0 + pages.1,
        pages.0 % page == 0 && pages.1 % page == 0,
        pages.0 + page > address,
        pages.0 + pages.1 - page < address + length,
{
}

/// Locking the memory is tried again while the system is busy, up to five times in all. A system
/// that does not permit or know it goes on without; any other failure is one.
pub proof fn lemma_a_busy_system_is_asked_again(
    error: Option<i32>,
    failures: usize,
    next: MemoryLock,
)
    requires
        call_ensures(secret::after_lock_attempt, (error, failures), next),
    ensures
        next is Locked <==> error is None,
        next is Unavailable <==> error == Some(1i32) || error == Some(38i32),
        next is Retry <==> error == Some(11i32) && failures < 4,
        next is Retry ==> next->eagain_failures == failures + 1,
        next is Failed ==> error == Some(next->Failed_0),
{
}

/// Core dumps count as disabled exactly if the system says so; otherwise its error is passed on.
pub proof fn lemma_dumps_are_disabled_on_success_only(
    status: i32,
    error: i32,
    protection: Result<ProcessDumpProtection, i32>,
)
    requires
        call_ensures(secret::disable_process_dumps, (status, error), protection),
    ensures
        protection is Ok <==> status == 0,
        protection is Err ==> protection->Err_0 == error,
{
}

/// A prompt that finds no memory for the responses is refused and keeps the password; one whose
/// response has no room for it is refused too, and the password is gone.
pub proof fn lemma_a_prompt_without_memory(
    data: &mut ConversationData,
    num_msg: i32,
    styles: &[Option<i32>],
    allocated: bool,
    buffer: &mut [u8],
    reply: ConversationReply,
    prompt: int,
    failure: Option<CallbackFailure>,
)
    requires
        old(data).wf(),
        old(data)@.password is Some,
        !old(data)@.password_consumed,
        old(data)@.failure is None,
        1 <= num_msg <= 32,
        styles@.len() == num_msg,
        is_answerable(styles@),
        0 <= prompt < styles@.len(),
        styles@[prompt] == Some(1i32),
        forall|i: int| 0 <= i < styles@.len() && i != prompt ==> #[trigger] styles@[i] != Some(1i32),
        !allocated || old(buffer)@.len() < 512,
        call_ensures(
            ConversationData::converse,
            (data, num_msg, Some(styles), allocated, buffer),
            reply,
        ),
        call_ensures(ConversationData::failure, (&*final(data),), failure),
    ensures
        reply.code == 5,
        reply.password_index is None,
        failure == Some(CallbackFailure::Resource),
        !allocated ==> final(data)@.password == old(data)@.password,
        allocated ==> final(data)@.password is None,
        final(buffer)@ == old(buffer)@,
{
    assert forall|i: int| 0 <= i < styles@.len() implies conversation::asks_for_password(
        #[trigger] styles@[i],
    ) || conversation::is_silent(styles@[i]) by {
        assert(styles@[i] == Some(1i32) || styles@[i] == Some(3i32) || styles@[i] == Some(4i32));
    }
    assert(conversation::batch_valid(styles@, true));
    assert(conversation::asks_for_password(styles@[prompt]));
}

} // verus!
