//! What a Linux-PAM status code means to the lock.

use vstd::prelude::*;
use vstd::string::StringExecFns;

use crate::lock::pam::codes;
use crate::text;

verus! {

#[derive(Clone, Copy, Debug, PartialEq, Eq, Structural)]
pub enum PamDenial {
    Credentials,
    AccountPolicy,
}

#[derive(Clone, Copy, Debug, PartialEq, Eq, Structural)]
pub enum PamErrorStage {
    Start,
    Conversation,
    Authenticate,
    UserCheck,
    Account,
    End,
}

#[derive(Clone, Copy, Debug, PartialEq, Eq, Structural)]
pub enum PamErrorKind {
    BackendUnavailable,
    ConversationProtocol,
    ResourceFailure,
    Internal,
}

/// A failure of the authentication backend, as opposed to a refused password.
#[derive(Clone, Copy, Debug, PartialEq, Eq, Structural)]
pub struct PamError {
    pub stage: PamErrorStage,
    pub kind: PamErrorKind,
    pub code: Option<i32>,
}

impl PamError {
    pub fn stage(self) -> (stage: PamErrorStage)
        ensures
            stage == self.stage,
    {
        self.stage
    }

    pub fn kind(self) -> (kind: PamErrorKind)
        ensures
            kind == self.kind,
    {
        self.kind
    }

    pub fn code(self) -> (code: Option<i32>)
        ensures
            code == self.code,
    {
        self.code
    }

    pub fn new(stage: PamErrorStage, kind: PamErrorKind, code: Option<i32>) -> (error: PamError)
        ensures
            error == (PamError { stage, kind, code }),
    {
        PamError { stage, kind, code }
    }

    pub fn from_code(stage: PamErrorStage, code: i32) -> (error: PamError)
        ensures
            error == (PamError { stage, kind: kind_of(code), code: Some(code) }),
    {
        PamError::new(stage, classify_error_code(code), Some(code))
    }
}

/// The kind of backend failure that a status code stands for.
pub open spec fn kind_of(code: i32) -> PamErrorKind {
    if set![
        codes::PAM_OPEN_ERR,
        codes::PAM_SYMBOL_ERR,
        codes::PAM_SERVICE_ERR,
        codes::PAM_SYSTEM_ERR,
        codes::PAM_CRED_INSUFFICIENT,
        codes::PAM_AUTHINFO_UNAVAIL,
        codes::PAM_CRED_UNAVAIL,
        codes::PAM_MODULE_UNKNOWN,
    ].contains(code) {
        PamErrorKind::BackendUnavailable
    } else if set![codes::PAM_CONV_ERR, codes::PAM_CONV_AGAIN, codes::PAM_INCOMPLETE].contains(
        code,
    ) {
        PamErrorKind::ConversationProtocol
    } else if code == codes::PAM_BUF_ERR {
        PamErrorKind::ResourceFailure
    } else {
        PamErrorKind::Internal
    }
}

/// The status codes by which authentication itself refuses the user.
pub open spec fn refuses_credentials(code: i32) -> bool {
    set![codes::PAM_AUTH_ERR, codes::PAM_USER_UNKNOWN, codes::PAM_MAXTRIES].contains(code)
}

/// The status codes by which account management refuses the user.
pub open spec fn refuses_account(code: i32) -> bool {
    refuses_credentials(code) || set![
        codes::PAM_PERM_DENIED,
        codes::PAM_NEW_AUTHTOK_REQD,
        codes::PAM_ACCT_EXPIRED,
        codes::PAM_CRED_EXPIRED,
        codes::PAM_AUTHTOK_EXPIRED,
    ].contains(code)
}

pub fn classify_authenticate(code: i32) -> (class: Result<(), Result<PamDenial, PamErrorKind>>)
    ensures
        class == if code == codes::PAM_SUCCESS {
            Ok(())
        } else if refuses_credentials(code) {
            Err(Ok(PamDenial::Credentials))
        } else {
            Err(Err(kind_of(code)))
        },
{
    if code == codes::PAM_SUCCESS {
        Ok(())
    } else if code == codes::PAM_AUTH_ERR || code == codes::PAM_USER_UNKNOWN || code
        == codes::PAM_MAXTRIES {
        Err(Ok(PamDenial::Credentials))
    } else {
        Err(Err(classify_error_code(code)))
    }
}

pub fn classify_account(code: i32) -> (class: Result<(), Result<PamDenial, PamErrorKind>>)
    ensures
        class == if code == codes::PAM_SUCCESS {
            Ok(())
        } else if refuses_account(code) {
            Err(Ok(PamDenial::AccountPolicy))
        } else {
            Err(Err(kind_of(code)))
        },
{
    if code == codes::PAM_SUCCESS {
        Ok(())
    } else if code == codes::PAM_PERM_DENIED || code == codes::PAM_AUTH_ERR || code
        == codes::PAM_USER_UNKNOWN || code == codes::PAM_MAXTRIES || code
        == codes::PAM_NEW_AUTHTOK_REQD || code == codes::PAM_ACCT_EXPIRED || code
        == codes::PAM_CRED_EXPIRED || code == codes::PAM_AUTHTOK_EXPIRED {
        Err(Ok(PamDenial::AccountPolicy))
    } else {
        Err(Err(classify_error_code(code)))
    }
}

pub fn classify_error_code(code: i32) -> (kind: PamErrorKind)
    ensures
        kind == kind_of(code),
{
    if code == codes::PAM_OPEN_ERR || code == codes::PAM_SYMBOL_ERR || code
        == codes::PAM_SERVICE_ERR || code == codes::PAM_SYSTEM_ERR || code
        == codes::PAM_CRED_INSUFFICIENT || code == codes::PAM_AUTHINFO_UNAVAIL || code
        == codes::PAM_CRED_UNAVAIL || code == codes::PAM_MODULE_UNKNOWN {
        PamErrorKind::BackendUnavailable
    } else if code == codes::PAM_CONV_ERR || code == codes::PAM_CONV_AGAIN || code
        == codes::PAM_INCOMPLETE {
        PamErrorKind::ConversationProtocol
    } else if code == codes::PAM_BUF_ERR {
        PamErrorKind::ResourceFailure
    } else {
        PamErrorKind::Internal
    }
}

impl PamErrorStage {
    pub open spec fn spelled(self) -> Seq<char> {
        match self {
            PamErrorStage::Start => "Start"@,
            PamErrorStage::Conversation => "Conversation"@,
            PamErrorStage::Authenticate => "Authenticate"@,
            PamErrorStage::UserCheck => "UserCheck"@,
            PamErrorStage::Account => "Account"@,
            PamErrorStage::End => "End"@,
        }
    }

    pub fn name(self) -> (name: &'static str)
        ensures
            name@ == self.spelled(),
    {
        match self {
            PamErrorStage::Start => "Start",
            PamErrorStage::Conversation => "Conversation",
            PamErrorStage::Authenticate => "Authenticate",
            PamErrorStage::UserCheck => "UserCheck",
            PamErrorStage::Account => "Account",
            PamErrorStage::End => "End",
        }
    }
}

impl PamErrorKind {
    pub open spec fn spelled(self) -> Seq<char> {
        match self {
            PamErrorKind::BackendUnavailable => "BackendUnavailable"@,
            PamErrorKind::ConversationProtocol => "ConversationProtocol"@,
            PamErrorKind::ResourceFailure => "ResourceFailure"@,
            PamErrorKind::Internal => "Internal"@,
        }
    }

    pub fn name(self) -> (name: &'static str)
        ensures
            name@ == self.spelled(),
    {
        match self {
            PamErrorKind::BackendUnavailable => "BackendUnavailable",
            PamErrorKind::ConversationProtocol => "ConversationProtocol",
            PamErrorKind::ResourceFailure => "ResourceFailure",
            PamErrorKind::Internal => "Internal",
        }
    }
}

/// What is said of an error.
pub open spec fn pam_text(error: PamError) -> Seq<char> {
    let head = "PAM "@ + error.kind.spelled() + " failure in "@ + error.stage.spelled();
    match error.code {
        Some(code) => head + " (code Some("@ + text::signed_text(code as int) + "))"@,
        None => head + " (code None)"@,
    }
}

impl PamError {
    /// What is said of the error.
    pub fn message(self) -> (message: String)
        ensures
            message@ == pam_text(self),
    {
        let mut message = "PAM ".to_owned();
        message.append(self.kind.name());
        message.append(" failure in ");
        message.append(self.stage.name());
        match self.code {
            Some(code) => {
                message.append(" (code Some(");
                message.append(text::signed_string(code as i64).as_str());
                message.append("))");
            },
            None => message.append(" (code None)"),
        }
        message
    }
}

} // verus!
