//! One authentication transaction: the order of the PAM calls and the verdict over their
//! results. The calls themselves are made by whoever drives the transaction.

use vstd::prelude::*;
use vstd::slice::slice_to_vec;

use crate::lock::pam::codes::PAM_SUCCESS;
use crate::lock::pam::conversation::CallbackFailure;
use crate::lock::pam::error;
use crate::lock::pam::error::{
    classify_account, classify_authenticate, PamDenial, PamError, PamErrorKind, PamErrorStage,
};
use crate::lock::pam::secret::ProcessDumpProtection;
use crate::text::same_bytes;

verus! {

#[derive(Clone, Copy, Debug, PartialEq, Eq, Structural)]
pub enum PamOutcome {
    Authenticated,
    Denied(PamDenial),
}

/// The next PAM call of a transaction.
#[derive(Clone, Copy, Debug, PartialEq, Eq, Structural)]
pub enum PamCall {
    Start,
    Authenticate { flags: i32 },
    GetUser,
    Account { flags: i32 },
    End { status: i32 },
}

/// What a transaction asks for next, or its verdict.
#[derive(Clone, Copy, Debug, PartialEq, Eq)]
pub enum PamStep {
    Call(PamCall),
    Done(Result<PamOutcome, PamError>),
}

#[derive(Clone, Copy, Debug, PartialEq, Eq)]
pub enum PamStage {
    Starting,
    Authenticating,
    CheckingUser { account_managed: bool },
    ManagingAccount,
    Ending { candidate: Result<PamOutcome, PamError> },
    Finished,
}

/// The contents of a [`PamTransaction`].
pub struct TransactionView {
    pub expected_user: Seq<u8>,
    pub stage: PamStage,
    pub last_status: i32,
}

pub open spec fn callback_error(failure: CallbackFailure) -> PamError {
    PamError {
        stage: PamErrorStage::Conversation,
        kind: match failure {
            CallbackFailure::Protocol => PamErrorKind::ConversationProtocol,
            CallbackFailure::Resource => PamErrorKind::ResourceFailure,
            CallbackFailure::Panicked => PamErrorKind::Internal,
        },
        code: None,
    }
}

pub open spec fn internal_error(stage: PamErrorStage, code: Option<i32>) -> PamError {
    PamError { stage, kind: PamErrorKind::Internal, code }
}

impl TransactionView {
    pub open spec fn initial(expected_user: Seq<u8>) -> TransactionView {
        TransactionView { expected_user, stage: PamStage::Starting, last_status: PAM_SUCCESS }
    }

    pub open spec fn calling(self, stage: PamStage, status: i32, call: PamCall) -> (
        TransactionView,
        PamStep,
    ) {
        (TransactionView { stage, last_status: status, ..self }, PamStep::Call(call))
    }

    pub open spec fn ending(self, status: i32, candidate: Result<PamOutcome, PamError>) -> (
        TransactionView,
        PamStep,
    ) {
        self.calling(PamStage::Ending { candidate }, status, PamCall::End { status })
    }

    pub open spec fn done(self, verdict: Result<PamOutcome, PamError>) -> (
        TransactionView,
        PamStep,
    ) {
        (TransactionView { stage: PamStage::Finished, ..self }, PamStep::Done(verdict))
    }

    pub open spec fn started(self, status: i32, has_handle: bool) -> (TransactionView, PamStep) {
        if status != PAM_SUCCESS {
            self.done(
                Err(
                    PamError {
                        stage: PamErrorStage::Start,
                        kind: error::kind_of(status),
                        code: Some(status),
                    },
                ),
            )
        } else if !has_handle {
            self.done(Err(internal_error(PamErrorStage::Start, Some(status))))
        } else {
            self.calling(PamStage::Authenticating, status, PamCall::Authenticate { flags: 0 })
        }
    }

    pub open spec fn authenticated(self, status: i32, failure: Option<CallbackFailure>) -> (
        TransactionView,
        PamStep,
    ) {
        if failure is Some {
            self.ending(status, Err(callback_error(failure->0)))
        } else if status == PAM_SUCCESS {
            self.calling(
                PamStage::CheckingUser { account_managed: false },
                status,
                PamCall::GetUser,
            )
        } else if error::refuses_credentials(status) {
            self.ending(status, Ok(PamOutcome::Denied(PamDenial::Credentials)))
        } else {
            self.ending(
                status,
                Err(
                    PamError {
                        stage: PamErrorStage::Authenticate,
                        kind: error::kind_of(status),
                        code: Some(status),
                    },
                ),
            )
        }
    }

    pub open spec fn user_read(self, status: i32, name: Option<Seq<u8>>) -> (
        TransactionView,
        PamStep,
    ) {
        if status != PAM_SUCCESS || name != Some(self.expected_user) {
            self.ending(status, Err(internal_error(PamErrorStage::UserCheck, Some(status))))
        } else if self.stage == (PamStage::CheckingUser { account_managed: true }) {
            self.ending(status, Ok(PamOutcome::Authenticated))
        } else {
            self.calling(PamStage::ManagingAccount, status, PamCall::Account { flags: 0 })
        }
    }

    pub open spec fn account_managed(self, status: i32, failure: Option<CallbackFailure>) -> (
        TransactionView,
        PamStep,
    ) {
        if failure is Some {
            self.ending(status, Err(callback_error(failure->0)))
        } else if status == PAM_SUCCESS {
            self.calling(
                PamStage::CheckingUser { account_managed: true },
                status,
                PamCall::GetUser,
            )
        } else if error::refuses_account(status) {
            self.ending(status, Ok(PamOutcome::Denied(PamDenial::AccountPolicy)))
        } else {
            self.ending(
                status,
                Err(
                    PamError {
                        stage: PamErrorStage::Account,
                        kind: error::kind_of(status),
                        code: Some(status),
                    },
                ),
            )
        }
    }

    pub open spec fn ended(self, status: i32, failure: Option<CallbackFailure>) -> (
        TransactionView,
        PamStep,
    ) {
        if status != PAM_SUCCESS {
            self.done(Err(internal_error(PamErrorStage::End, Some(status))))
        } else if failure is Some {
            self.done(Err(callback_error(failure->0)))
        } else {
            self.done(self.stage->candidate)
        }
    }
}

/// A transaction under way. Whoever drives it makes the call that the last step named and
/// reports its result; each result leads to the next step.
pub struct PamTransaction {
    expected_user: Vec<u8>,
    stage: PamStage,
    last_status: i32,
}

impl View for PamTransaction {
    type V = TransactionView;

    closed spec fn view(&self) -> TransactionView {
        TransactionView {
            expected_user: self.expected_user@,
            stage: self.stage,
            last_status: self.last_status,
        }
    }
}

pub struct PamAuthenticator {
    _dump_protection: ProcessDumpProtection,
}

impl PamAuthenticator {
    pub closed spec fn dump_protection(&self) -> ProcessDumpProtection {
        self._dump_protection
    }

    /// The PAM backend can be made only after process-wide core dumps were disabled.
    pub fn new(dump_protection: ProcessDumpProtection) -> (authenticator: PamAuthenticator)
        ensures
            authenticator.dump_protection() == dump_protection,
    {
        PamAuthenticator { _dump_protection: dump_protection }
    }

    /// Begins a transaction for a user, whose name must not be empty.
    pub fn authenticate(&self, expected_user: &[u8]) -> (begun: Result<PamTransaction, PamError>)
        ensures
            match begun {
                Ok(transaction) => {
                    &&& expected_user@.len() > 0
                    &&& transaction@ == TransactionView::initial(expected_user@)
                },
                Err(error) => {
                    &&& expected_user@.len() == 0
                    &&& error == internal_error(PamErrorStage::Start, None)
                },
            },
    {
        PamTransaction::begin(expected_user)
    }
}

impl PamTransaction {
    /// The first call of a transaction that has begun is [`PamCall::Start`].
    pub fn begin(expected_user: &[u8]) -> (begun: Result<PamTransaction, PamError>)
        ensures
            match begun {
                Ok(transaction) => {
                    &&& expected_user@.len() > 0
                    &&& transaction@ == TransactionView::initial(expected_user@)
                },
                Err(error) => {
                    &&& expected_user@.len() == 0
                    &&& error == internal_error(PamErrorStage::Start, None)
                },
            },
    {
        if expected_user.len() == 0 {
            return Err(PamError::new(PamErrorStage::Start, PamErrorKind::Internal, None));
        }
        Ok(
            PamTransaction {
                expected_user: slice_to_vec(expected_user),
                stage: PamStage::Starting,
                last_status: PAM_SUCCESS,
            },
        )
    }

    pub fn stage(&self) -> (stage: PamStage)
        ensures
            stage == self@.stage,
    {
        self.stage
    }

    /// The status of the last call, which ends a transaction that is given up.
    pub fn last_status(&self) -> (status: i32)
        ensures
            status == self@.last_status,
    {
        self.last_status
    }

    pub fn started(&mut self, status: i32, has_handle: bool) -> (step: PamStep)
        requires
            old(self)@.stage == PamStage::Starting,
        ensures
            (final(self)@, step) == old(self)@.started(status, has_handle),
    {
        if status != PAM_SUCCESS {
            return self.finish(Err(PamError::from_code(PamErrorStage::Start, status)));
        }
        if !has_handle {
            return self.finish(
                Err(PamError::new(PamErrorStage::Start, PamErrorKind::Internal, Some(status))),
            );
        }
        self.last_status = status;
        self.stage = PamStage::Authenticating;
        PamStep::Call(PamCall::Authenticate { flags: 0 })
    }

    /// Empty authentication tokens are allowed, so the flags of the call are zero. `failure` is
    /// the failure that the conversation has recorded by now.
    pub fn authenticated(&mut self, status: i32, failure: Option<CallbackFailure>) -> (step:
        PamStep)
        requires
            old(self)@.stage == PamStage::Authenticating,
        ensures
            (final(self)@, step) == old(self)@.authenticated(status, failure),
    {
        self.last_status = status;
        if let Some(failure) = failure {
            return self.end(Err(conversation_error(failure)));
        }
        match classify_authenticate(status) {
            Ok(()) => {
                self.stage = PamStage::CheckingUser { account_managed: false };
                PamStep::Call(PamCall::GetUser)
            },
            Err(Ok(denial)) => self.end(Ok(PamOutcome::Denied(denial))),
            Err(Err(kind)) => self.end(
                Err(PamError::new(PamErrorStage::Authenticate, kind, Some(status))),
            ),
        }
    }

    /// The user that PAM now names must still be the expected one, byte for byte.
    pub fn user_read(&mut self, status: i32, name: Option<&[u8]>) -> (step: PamStep)
        requires
            old(self)@.stage is CheckingUser,
        ensures
            (final(self)@, step) == old(self)@.user_read(
                status,
                match name {
                    Some(name) => Some(name@),
                    None => None,
                },
            ),
    {
        self.last_status = status;
        let expected = match name {
            Some(name) => status == PAM_SUCCESS && same_bytes(name, self.expected_user.as_slice()),
            None => false,
        };
        if !expected {
            return self.end(
                Err(PamError::new(PamErrorStage::UserCheck, PamErrorKind::Internal, Some(status))),
            );
        }
        match self.stage {
            PamStage::CheckingUser { account_managed: true } => self.end(
                Ok(PamOutcome::Authenticated),
            ),
            _ => {
                self.stage = PamStage::ManagingAccount;
                PamStep::Call(PamCall::Account { flags: 0 })
            },
        }
    }

    pub fn account_managed(&mut self, status: i32, failure: Option<CallbackFailure>) -> (step:
        PamStep)
        requires
            old(self)@.stage == PamStage::ManagingAccount,
        ensures
            (final(self)@, step) == old(self)@.account_managed(status, failure),
    {
        self.last_status = status;
        if let Some(failure) = failure {
            return self.end(Err(conversation_error(failure)));
        }
        match classify_account(status) {
            Ok(()) => {
                self.stage = PamStage::CheckingUser { account_managed: true };
                PamStep::Call(PamCall::GetUser)
            },
            Err(Ok(denial)) => self.end(Ok(PamOutcome::Denied(denial))),
            Err(Err(kind)) => self.end(
                Err(PamError::new(PamErrorStage::Account, kind, Some(status))),
            ),
        }
    }

    /// A failed end, or a conversation that failed while PAM cleaned up, overrides whatever the
    /// transaction had come to.
    pub fn ended(&mut self, status: i32, failure: Option<CallbackFailure>) -> (step: PamStep)
        requires
            old(self)@.stage is Ending,
        ensures
            (final(self)@, step) == old(self)@.ended(status, failure),
    {
        if status != PAM_SUCCESS {
            return self.finish(
                Err(PamError::new(PamErrorStage::End, PamErrorKind::Internal, Some(status))),
            );
        }
        if let Some(failure) = failure {
            return self.finish(Err(conversation_error(failure)));
        }
        match self.stage {
            PamStage::Ending { candidate } => self.finish(candidate),
            _ => self.finish(
                Err(PamError::new(PamErrorStage::End, PamErrorKind::Internal, None)),
            ),
        }
    }

    fn end(&mut self, candidate: Result<PamOutcome, PamError>) -> (step: PamStep)
        ensures
            (final(self)@, step) == old(self)@.ending(old(self)@.last_status, candidate),
    {
        self.stage = PamStage::Ending { candidate };
        PamStep::Call(PamCall::End { status: self.last_status })
    }

    fn finish(&mut self, verdict: Result<PamOutcome, PamError>) -> (step: PamStep)
        ensures
            (final(self)@, step) == old(self)@.done(verdict),
    {
        self.stage = PamStage::Finished;
        PamStep::Done(verdict)
    }
}

fn conversation_error(failure: CallbackFailure) -> (error: PamError)
    ensures
        error == callback_error(failure),
{
    let kind = match failure {
        CallbackFailure::Protocol => PamErrorKind::ConversationProtocol,
        CallbackFailure::Resource => PamErrorKind::ResourceFailure,
        CallbackFailure::Panicked => PamErrorKind::Internal,
    };
    PamError::new(PamErrorStage::Conversation, kind, None)
}

/// The result of one PAM call, as it is reported to the transaction.
pub enum PamReport {
    Started { status: i32, has_handle: bool },
    Authenticated { status: i32, failure: Option<CallbackFailure> },
    UserRead { status: i32, name: Option<Seq<u8>> },
    AccountManaged { status: i32, failure: Option<CallbackFailure> },
    Ended { status: i32, failure: Option<CallbackFailure> },
}

impl PamReport {
    pub open spec fn status(self) -> i32 {
        match self {
            PamReport::Started { status, .. } => status,
            PamReport::Authenticated { status, .. } => status,
            PamReport::UserRead { status, .. } => status,
            PamReport::AccountManaged { status, .. } => status,
            PamReport::Ended { status, .. } => status,
        }
    }
}

/// Whether the report is the one that the transaction waits for.
pub open spec fn expects(transaction: TransactionView, report: PamReport) -> bool {
    match report {
        PamReport::Started { .. } => transaction.stage is Starting,
        PamReport::Authenticated { .. } => transaction.stage is Authenticating,
        PamReport::UserRead { .. } => transaction.stage is CheckingUser,
        PamReport::AccountManaged { .. } => transaction.stage is ManagingAccount,
        PamReport::Ended { .. } => transaction.stage is Ending,
    }
}

pub open spec fn reported(transaction: TransactionView, report: PamReport) -> (
    TransactionView,
    PamStep,
) {
    match report {
        PamReport::Started { status, has_handle } => transaction.started(status, has_handle),
        PamReport::Authenticated { status, failure } => transaction.authenticated(status, failure),
        PamReport::UserRead { status, name } => transaction.user_read(status, name),
        PamReport::AccountManaged { status, failure } => transaction.account_managed(
            status,
            failure,
        ),
        PamReport::Ended { status, failure } => transaction.ended(status, failure),
    }
}

/// The transaction of a user after the given reports, and its last step.
pub open spec fn run(user: Seq<u8>, reports: Seq<PamReport>) -> (TransactionView, PamStep)
    decreases reports.len(),
{
    if reports.len() == 0 {
        (TransactionView::initial(user), PamStep::Call(PamCall::Start))
    } else {
        reported(run(user, reports.drop_last()).0, reports.last())
    }
}

/// Whether every report was the one that the transaction waited for.
pub open spec fn in_order(user: Seq<u8>, reports: Seq<PamReport>) -> bool
    decreases reports.len(),
{
    reports.len() > 0 ==> {
        &&& in_order(user, reports.drop_last())
        &&& expects(run(user, reports.drop_last()).0, reports.last())
    }
}

/// How often a transaction asked for the call that ends it.
pub open spec fn end_calls(user: Seq<u8>, reports: Seq<PamReport>) -> nat
    decreases reports.len(),
{
    if reports.len() == 0 {
        0
    } else {
        end_calls(user, reports.drop_last()) + if run(user, reports).1 matches PamStep::Call(
            PamCall::End { .. },
        ) {
            1nat
        } else {
            0nat
        }
    }
}

proof fn lemma_user_is_kept(user: Seq<u8>, reports: Seq<PamReport>)
    ensures
        run(user, reports).0.expected_user == user,
    decreases reports.len(),
{
    if reports.len() > 0 {
        lemma_user_is_kept(user, reports.drop_last());
    }
}

proof fn lemma_progress(user: Seq<u8>, reports: Seq<PamReport>)
    requires
        in_order(user, reports),
    ensures
        ({
            let stage = run(user, reports).0.stage;
            &&& stage is Starting <==> reports.len() == 0
            &&& stage is Authenticating ==> reports.len() == 1
            &&& stage == (PamStage::CheckingUser { account_managed: false }) ==> reports.len() == 2
            &&& stage is ManagingAccount ==> reports.len() == 3
            &&& stage == (PamStage::CheckingUser { account_managed: true }) ==> reports.len() == 4
            &&& stage is Ending ==> 2 <= reports.len() <= 5
            &&& stage is Finished ==> reports.len() == 1 || 3 <= reports.len() <= 6
        }),
    decreases reports.len(),
{
    if reports.len() > 0 {
        lemma_progress(user, reports.drop_last());
    }
}

/// A transaction whose start succeeded asks for its end exactly once, with the status of the
/// call before it, and then gives its verdict; one whose start failed never asks.
pub proof fn lemma_a_transaction_ends_once(user: Seq<u8>, reports: Seq<PamReport>)
    requires
        in_order(user, reports),
    ensures
        ({
            let (transaction, step) = run(user, reports);
            &&& step is Done <==> transaction.stage is Finished
            &&& transaction.stage is Finished ==> end_calls(user, reports) == if reports.len() == 1 {
                0nat
            } else {
                1nat
            }
            &&& transaction.stage is Ending ==> {
                &&& step == PamStep::Call(PamCall::End { status: reports.last().status() })
                &&& end_calls(user, reports) == 1
            }
            &&& !(transaction.stage is Ending) && !(transaction.stage is Finished) ==> end_calls(
                user,
                reports,
            ) == 0
        }),
    decreases reports.len(),
{
    lemma_progress(user, reports);
    if reports.len() > 0 {
        lemma_a_transaction_ends_once(user, reports.drop_last());
        lemma_progress(user, reports.drop_last());
    }
}

/// The only reports that authenticate a user: every call succeeds, PAM names the expected user
/// before and after account management, and no conversation fails, not even during the end.
pub open spec fn flawless(user: Seq<u8>) -> Seq<PamReport> {
    seq![
        PamReport::Started { status: PAM_SUCCESS, has_handle: true },
        PamReport::Authenticated { status: PAM_SUCCESS, failure: None },
        PamReport::UserRead { status: PAM_SUCCESS, name: Some(user) },
        PamReport::AccountManaged { status: PAM_SUCCESS, failure: None },
        PamReport::UserRead { status: PAM_SUCCESS, name: Some(user) },
        PamReport::Ended { status: PAM_SUCCESS, failure: None },
    ]
}

/// A transaction authenticates its user exactly when every report is flawless.
pub proof fn lemma_only_a_flawless_transaction_authenticates(
    user: Seq<u8>,
    reports: Seq<PamReport>,
)
    requires
        in_order(user, reports),
    ensures
        run(user, reports).1 == PamStep::Done(Ok(PamOutcome::Authenticated)) <==> reports
            == flawless(user),
{
    lemma_progress(user, reports);
    lemma_prefix_is_flawless(user, reports);
    if reports == flawless(user) {
        let r5 = reports.drop_last();
        let r4 = r5.drop_last();
        let r3 = r4.drop_last();
        let r2 = r3.drop_last();
        let r1 = r2.drop_last();
        assert(r1.drop_last() == Seq::<PamReport>::empty());
        lemma_user_is_kept(user, r4);
        lemma_user_is_kept(user, r2);
        assert(run(user, r1).0.stage is Authenticating);
        assert(run(user, r2).0.stage == (PamStage::CheckingUser { account_managed: false }));
        assert(run(user, r3).0.stage is ManagingAccount);
        assert(run(user, r4).0.stage == (PamStage::CheckingUser { account_managed: true }));
        assert(run(user, r5).0.stage == (PamStage::Ending {
            candidate: Ok(PamOutcome::Authenticated),
        }));
    } else if run(user, reports).1 == PamStep::Done(Ok(PamOutcome::Authenticated)) {
        let before = reports.drop_last();
        lemma_prefix_is_flawless(user, before);
        assert(before == flawless(user).take(5));
        assert(reports.last() == flawless(user)[5]);
        assert(reports == before.push(reports.last()));
        assert(flawless(user) == flawless(user).take(5).push(flawless(user)[5]));
    }
}

proof fn lemma_prefix_is_flawless(user: Seq<u8>, reports: Seq<PamReport>)
    requires
        in_order(user, reports),
    ensures
        ({
            let stage = run(user, reports).0.stage;
            (stage is Authenticating || stage is CheckingUser || stage is ManagingAccount || stage
                == (PamStage::Ending { candidate: Ok(PamOutcome::Authenticated) })) ==> reports
                == flawless(user).take(reports.len() as int) && reports.len() <= 5 && (stage is Ending
                ==> reports.len() == 5)
        }),
    decreases reports.len(),
{
    lemma_progress(user, reports);
    if reports.len() > 0 {
        let before = reports.drop_last();
        lemma_prefix_is_flawless(user, before);
        lemma_progress(user, before);
        lemma_user_is_kept(user, before);
        let stage = run(user, reports).0.stage;
        if stage is Authenticating || stage is CheckingUser || stage is ManagingAccount || stage
            == (PamStage::Ending { candidate: Ok(PamOutcome::Authenticated) }) {
            assert(before == flawless(user).take(before.len() as int));
            assert(reports.last() == flawless(user)[reports.len() - 1]);
            assert(reports == flawless(user).take(reports.len() as int));
        }
    } else {
        assert(flawless(user).take(0) == reports);
    }
}

} // verus!
