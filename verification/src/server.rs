//! Server errors and the decisions of serving: bind the address, serve
//! with graceful shutdown, and report which step failed. The binding and
//! serving themselves are network I/O and run outside this library; they
//! hand their outcome to [`serve_step`], which says what happens next.

use vstd::prelude::*;
use vstd::string::StringExecFns;

verus! {

/// Errors that can occur during server startup.
#[derive(Debug)]
pub enum ServerError {
    /// Failed to bind to address.
    Bind(String),
    /// Server error during operation.
    Serve(String),
}

/// `failed to bind to address: `
pub open spec fn bind_message_prefix() -> Seq<char> {
    seq![
        'f', 'a', 'i', 'l', 'e', 'd', ' ', 't', 'o', ' ', 'b', 'i', 'n', 'd', ' ', 't', 'o', ' ',
        'a', 'd', 'd', 'r', 'e', 's', 's', ':', ' ',
    ]
}

/// `server error: `
pub open spec fn serve_message_prefix() -> Seq<char> {
    seq!['s', 'e', 'r', 'v', 'e', 'r', ' ', 'e', 'r', 'r', 'o', 'r', ':', ' ']
}

/// The message of a server error.
pub open spec fn server_error_message(e: ServerError) -> Seq<char> {
    match e {
        ServerError::Bind(detail) => bind_message_prefix() + detail@,
        ServerError::Serve(detail) => serve_message_prefix() + detail@,
    }
}

impl ServerError {
    /// The error's message: `failed to bind to address: <detail>` or
    /// `server error: <detail>`.
    pub fn message(&self) -> (m: String)
        ensures
            m@ == server_error_message(*self),
    {
        proof {
            reveal_strlit("failed to bind to address: ");
            reveal_strlit("server error: ");
            assert("failed to bind to address: "@ =~= bind_message_prefix());
            assert("server error: "@ =~= serve_message_prefix());
        }
        match self {
            ServerError::Bind(detail) => {
                let mut m = String::from_str("failed to bind to address: ");
                m.append(detail.as_str());
                m
            },
            ServerError::Serve(detail) => {
                let mut m = String::from_str("server error: ");
                m.append(detail.as_str());
                m
            },
        }
    }
}

/// The step of serving that an outcome comes from.
#[derive(Debug, Clone, Copy, PartialEq, Eq, Structural)]
pub enum ServePhase {
    /// Binding the listener to the address.
    Binding,
    /// Serving requests until a shutdown signal arrives.
    Serving,
}

/// What to do after a step.
#[derive(Debug)]
pub enum ServeAction {
    /// The listener is bound: log that the server listens, and serve.
    Serve,
    /// Stop, and return this result to the caller.
    Finish(Result<(), ServerError>),
}

/// Decide what follows one step of serving.
///
/// - A bound listener goes on to serve.
/// - A failed bind stops with [`ServerError::Bind`] carrying the error text.
/// - Serving that ended (after graceful shutdown) stops with `Ok(())`.
/// - Serving that failed stops with [`ServerError::Serve`] carrying the
///   error text.
pub fn serve_step(phase: ServePhase, outcome: Result<(), String>) -> (a: ServeAction)
    ensures
        phase == ServePhase::Binding && outcome is Ok ==> a is Serve,
        phase == ServePhase::Binding && outcome is Err ==> (a matches ServeAction::Finish(
            Err(ServerError::Bind(d)),
        ) && d@ == outcome->Err_0@),
        phase == ServePhase::Serving && outcome is Ok ==> a matches ServeAction::Finish(Ok(())),
        phase == ServePhase::Serving && outcome is Err ==> (a matches ServeAction::Finish(
            Err(ServerError::Serve(d)),
        ) && d@ == outcome->Err_0@),
{
    match (phase, outcome) {
        (ServePhase::Binding, Ok(())) => ServeAction::Serve,
        (ServePhase::Binding, Err(e)) => ServeAction::Finish(Err(ServerError::Bind(e))),
        (ServePhase::Serving, Ok(())) => ServeAction::Finish(Ok(())),
        (ServePhase::Serving, Err(e)) => ServeAction::Finish(Err(ServerError::Serve(e))),
    }
}

} // verus!
