//! How a behaviour ends, and what is to be said of a session in the end.

use crate::channel::ErrorType;
use vstd::prelude::*;

verus! {

/// Why a behaviour failed.
#[derive(Debug, Clone, Copy, PartialEq, Eq, Structural)]
pub enum Failure {
    /// The session no longer takes messages.
    SendFailed,
    /// A message should have been there, and none was.
    NoMessage,
    /// A message should have been there, and none will come.
    SessionClosed,
    /// The message that was there is not the expected one.
    UnexpectedMessage,
    /// The session should have disconnected, and has not.
    StillConnected,
    /// A step that the behaviour left to its caller panicked.
    Panicked,
}

impl Failure {
    /// The failure in words.
    pub open spec fn text(self) -> Seq<char> {
        match self {
            Failure::SendFailed => "Send failed"@,
            Failure::NoMessage => "No message from session"@,
            Failure::SessionClosed => "Session closed"@,
            Failure::UnexpectedMessage => "Unexpected message from session"@,
            Failure::StillConnected => "Session still connected"@,
            Failure::Panicked => "Behaviour panicked"@,
        }
    }

    /// The failure in words.
    pub fn message(&self) -> (message: &'static str)
        ensures
            message@ == self.text(),
            *self is SendFailed ==> message@ == "Send failed"@,
            *self is NoMessage ==> message@ == "No message from session"@,
            *self is SessionClosed ==> message@ == "Session closed"@,
            *self is UnexpectedMessage ==> message@ == "Unexpected message from session"@,
            *self is StillConnected ==> message@ == "Session still connected"@,
            *self is Panicked ==> message@ == "Behaviour panicked"@,
    {
        match self {
            Failure::SendFailed => "Send failed",
            Failure::NoMessage => "No message from session",
            Failure::SessionClosed => "Session closed",
            Failure::UnexpectedMessage => "Unexpected message from session",
            Failure::StillConnected => "Session still connected",
            Failure::Panicked => "Behaviour panicked",
        }
    }
}

/// How a behaviour ends.
pub type Outcome = Result<(), Failure>;

/// Why a session did not meet a behaviour's expectations.
#[derive(Debug, PartialEq, Eq)]
pub enum Rejection<E> {
    /// The session ended with an error.
    SessionError(E),
    /// The behaviour failed against the session.
    BehaviourError(Failure),
}

impl<E> Rejection<E> {
    /// The rejection in words.
    pub open spec fn text(self) -> Seq<char> {
        match self {
            Rejection::SessionError(_) => "Session returned error"@,
            Rejection::BehaviourError(_) => "Behaviour returned error"@,
        }
    }

    /// The rejection in words.
    pub fn message(&self) -> (message: &'static str)
        ensures
            message@ == self.text(),
            *self is SessionError ==> message@ == "Session returned error"@,
            *self is BehaviourError ==> message@ == "Behaviour returned error"@,
    {
        match self {
            Rejection::SessionError(_) => "Session returned error",
            Rejection::BehaviourError(_) => "Behaviour returned error",
        }
    }
}

/// What follows from how the session and the behaviour ended. The session's error goes first.
pub open spec fn judged<E>(session: Result<(), E>, behaviour: Outcome) -> Result<(), Rejection<E>> {
    match (session, behaviour) {
        (Err(error), _) => Err(Rejection::SessionError(error)),
        (Ok(()), Err(failure)) => Err(Rejection::BehaviourError(failure)),
        (Ok(()), Ok(())) => Ok(()),
    }
}

/// Decides, once the session and the behaviour have both ended, whether the session passes: any
/// error of either side rejects it, and the session's own error is the one that is reported.
pub fn verdict<E: ErrorType>(session: Result<(), E>, behaviour: Outcome) -> (result: Result<
    (),
    Rejection<E>,
>)
    ensures
        result == judged(session, behaviour),
        result is Ok <==> session is Ok && behaviour is Ok,
        session is Err ==> result is Err && result->Err_0 == Rejection::SessionError(
            session->Err_0,
        ),
        session is Ok && behaviour is Err ==> result is Err && result->Err_0
            == Rejection::<E>::BehaviourError(behaviour->Err_0),
{
    match session {
        Err(error) => Err(Rejection::SessionError(error)),
        Ok(()) => match behaviour {
            Err(failure) => Err(Rejection::BehaviourError(failure)),
            Ok(()) => Ok(()),
        },
    }
}

} // verus!
