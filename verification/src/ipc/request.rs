//! Deadline'd request-reply over an actor's data channel.
//!
//! The caller builds its normal data message around a [`RequestToken`]; the
//! receiving actor calls [`RequestToken::reply`] when it has an answer. The
//! caller's wait ends with the answer or a typed error, so callers never
//! hang on a wedged actor: [`settle_request`] says which.

use std::sync::{Arc, Mutex};
use tokio::sync::oneshot;
use vstd::prelude::*;

verus! {

/// Calls `std::sync::Mutex::new` around a reply slot holding `reply_to`.
/// The mutex has no model here; nothing is stated of it.
#[verifier::external_body]
fn new_slot<R>(reply_to: oneshot::Sender<R>) -> Mutex<Option<oneshot::Sender<R>>> {
    Mutex::new(Some(reply_to))
}

/// Calls `Clone::clone` on an `Arc`: the result points at the same slot.
#[verifier::external_body]
fn share_slot<R>(slot: &Arc<Mutex<Option<oneshot::Sender<R>>>>) -> (r: Arc<
    Mutex<Option<oneshot::Sender<R>>>,
>)
    ensures
        r == *slot,
{
    slot.clone()
}

/// Calls `std::sync::Mutex::lock` and takes the sender out of the slot
/// (`Option::take` on the guarded value); a poisoned lock gives `None`. The
/// slot is shared by every clone of a token, so what it holds is not
/// stated: it depends on which clone replied first.
#[verifier::external_body]
fn take_sender<R>(slot: &Mutex<Option<oneshot::Sender<R>>>) -> Option<oneshot::Sender<R>> {
    match slot.lock() {
        Ok(mut guard) => guard.take(),
        Err(_) => None,
    }
}

/// Calls `tokio::sync::oneshot::Sender::send` and reports whether it
/// returned `Ok`. That depends on whether the receiving end is still there,
/// so it is not stated.
#[verifier::external_body]
fn send_reply<R>(reply_to: oneshot::Sender<R>, answer: R) -> bool {
    reply_to.send(answer).is_ok()
}

/// One-shot reply capability with a correlation id, embedded by the caller
/// into an ordinary data message. Clonable so it satisfies the data
/// channel's `Clone` bound; only the first `reply` across all clones wins.
#[verifier::reject_recursive_types(R)]
pub struct RequestToken<R> {
    correlation_id: u128,
    slot: Arc<Mutex<Option<oneshot::Sender<R>>>>,
}

impl<R> RequestToken<R> {
    /// The correlation id of the request this token answers.
    pub closed spec fn id_view(&self) -> u128 {
        self.correlation_id
    }

    /// A token for the request `correlation_id` whose answer goes to
    /// `reply_to`.
    pub fn new(correlation_id: u128, reply_to: oneshot::Sender<R>) -> (r: Self)
        ensures
            r.id_view() == correlation_id,
    {
        RequestToken { correlation_id, slot: Arc::new(new_slot(reply_to)) }
    }

    /// The correlation id of the request this token answers.
    pub fn correlation_id(&self) -> (r: u128)
        ensures
            r == self.id_view(),
    {
        self.correlation_id
    }

    /// Answer the request. Returns `false` if the reply could not be
    /// delivered: a clone of this token already answered, or the requester
    /// gave up (deadline passed, future dropped).
    pub fn reply(&self, answer: R) -> bool {
        match take_sender(&*self.slot) {
            Some(reply_to) => send_reply(reply_to, answer),
            None => false,
        }
    }
}

impl<R> Clone for RequestToken<R> {
    /// Another handle on the same reply slot, for the same request.
    fn clone(&self) -> (r: Self)
        ensures
            r.id_view() == self.id_view(),
    {
        RequestToken { correlation_id: self.correlation_id, slot: share_slot(&self.slot) }
    }
}

/// Why a request produced no answer.
#[derive(Debug, Clone, Copy, PartialEq, Eq, Structural)]
pub enum RequestError {
    /// The data channel rejected the message (actor gone).
    SendFailed { correlation_id: u128 },
    /// The deadline elapsed before a reply arrived.
    TimedOut { correlation_id: u128 },
    /// The actor dropped the token without replying, reported immediately
    /// instead of waiting out the deadline.
    Dropped { correlation_id: u128 },
}

/// The correlation id an error carries.
pub open spec fn error_correlation_id(e: RequestError) -> u128 {
    match e {
        RequestError::SendFailed { correlation_id } => correlation_id,
        RequestError::TimedOut { correlation_id } => correlation_id,
        RequestError::Dropped { correlation_id } => correlation_id,
    }
}

impl RequestError {
    /// The correlation id of the request that failed.
    pub fn correlation_id(&self) -> (r: u128)
        ensures
            r == error_correlation_id(*self),
    {
        match self {
            RequestError::SendFailed { correlation_id } => *correlation_id,
            RequestError::TimedOut { correlation_id } => *correlation_id,
            RequestError::Dropped { correlation_id } => *correlation_id,
        }
    }
}

/// How the wait for a reply ended.
#[derive(Debug)]
pub enum ReplyOutcome<R> {
    /// The request message never reached the actor's data channel.
    NotSent,
    /// The actor replied in time.
    Answered(R),
    /// Every clone of the token was dropped without a reply.
    TokenDropped,
    /// The deadline elapsed first.
    DeadlinePassed,
}

/// The result a request resolves to: the answer, or the typed error for
/// how the wait ended, carrying the request's correlation id.
pub open spec fn settled<R>(correlation_id: u128, outcome: ReplyOutcome<R>) -> Result<R, RequestError> {
    match outcome {
        ReplyOutcome::Answered(a) => Ok(a),
        ReplyOutcome::NotSent => Err(RequestError::SendFailed { correlation_id }),
        ReplyOutcome::TokenDropped => Err(RequestError::Dropped { correlation_id }),
        ReplyOutcome::DeadlinePassed => Err(RequestError::TimedOut { correlation_id }),
    }
}

/// The result a request resolves to: the answer, or the typed error for
/// how the wait ended, carrying the request's correlation id.
pub fn settle_request<R>(correlation_id: u128, outcome: ReplyOutcome<R>) -> (r: Result<
    R,
    RequestError,
>)
    ensures
        r == settled(correlation_id, outcome),
{
    match outcome {
        ReplyOutcome::Answered(a) => Ok(a),
        ReplyOutcome::NotSent => Err(RequestError::SendFailed { correlation_id }),
        ReplyOutcome::TokenDropped => Err(RequestError::Dropped { correlation_id }),
        ReplyOutcome::DeadlinePassed => Err(RequestError::TimedOut { correlation_id }),
    }
}

/// A request resolves to an error exactly when no answer came, and
/// whatever way it fails, the error names the request.
pub proof fn lemma_failures_carry_the_request<R>(correlation_id: u128, outcome: ReplyOutcome<R>)
    ensures
        settled(correlation_id, outcome) is Err <==> !(outcome is Answered),
        match settled(correlation_id, outcome) {
            Err(e) => error_correlation_id(e) == correlation_id,
            Ok(_) => true,
        },
{
}

} // verus!
