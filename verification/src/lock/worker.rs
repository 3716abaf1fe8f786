//! What the authentication worker answers and when it stops.

use vstd::prelude::*;

use crate::lock::pam::error::PamError;
use crate::lock::pam::secret::LockedSecret;
use crate::lock::pam::transaction::PamOutcome;
use crate::lock::state::{AttemptId, AuthDecision};

verus! {

pub struct AuthRequest {
    pub attempt: AttemptId,
    pub password: LockedSecret,
}

#[derive(Clone, Copy, Debug, PartialEq, Eq, Structural)]
pub struct AuthReply {
    pub attempt: AttemptId,
    pub decision: AuthDecision,
}

pub open spec fn decided(verdict: Result<PamOutcome, PamError>) -> AuthDecision {
    match verdict {
        Ok(PamOutcome::Authenticated) => AuthDecision::Authenticated,
        Ok(PamOutcome::Denied(_)) => AuthDecision::Denied,
        Err(_) => AuthDecision::SystemFailure,
    }
}

/// Reduces the verdict of a transaction to what the lock needs to know of it.
pub fn decide(verdict: Result<PamOutcome, PamError>) -> (decision: AuthDecision)
    ensures
        decision == decided(verdict),
{
    match verdict {
        Ok(PamOutcome::Authenticated) => AuthDecision::Authenticated,
        Ok(PamOutcome::Denied(_)) => AuthDecision::Denied,
        Err(_) => AuthDecision::SystemFailure,
    }
}

/// The reply to one request; a backend that panicked reached no decision.
pub fn reply_to(attempt: AttemptId, decision: Option<AuthDecision>) -> (reply: AuthReply)
    ensures
        reply.attempt == attempt,
        reply.decision == match decision {
            Some(decision) => decision,
            None => AuthDecision::SystemFailure,
        },
{
    AuthReply {
        attempt,
        decision: match decision {
            Some(decision) => decision,
            None => AuthDecision::SystemFailure,
        },
    }
}

/// Whether the worker takes another request: not after its backend panicked, and not when
/// nobody is left to receive its replies.
pub fn keeps_serving(decision: Option<AuthDecision>, reply_delivered: bool) -> (serving: bool)
    ensures
        serving == (decision is Some && reply_delivered),
{
    decision.is_some() && reply_delivered
}

} // verus!
