//! The session of a frontend: recorded when it opens and when it closes.

use crate::fault::{self, invalid_data, invalid_input, Fault};
use crate::service::ipc::IpcEnvelope;
use vstd::prelude::*;

verus! {

/// What is done for a session.
#[derive(Clone, Copy, Debug, PartialEq, Eq, Structural)]
pub enum SessionAction {
    /// Record that the session opens.
    Open,
    /// Count the session as started, run it, and count it as finished.
    Run,
    /// Record that the session closes.
    Close,
}

/// What to do next for a session.
#[derive(Clone, Copy, Debug)]
pub enum SessionStep {
    Perform(SessionAction),
    Finish(Result<(), Fault>),
}

/// How an envelope's session goes: it is not begun where the frontend reports an error or where it
/// cannot be recorded, and it fails where its end cannot be recorded.
pub open spec fn serve_step(reports_error: bool, history: Seq<Result<(), Fault>>) -> SessionStep {
    if reports_error {
        SessionStep::Finish(
            Err(fault::data_fault("frontend reported an IPC envelope error")),
        )
    } else if history.len() == 0 {
        SessionStep::Perform(SessionAction::Open)
    } else if history[0] is Err {
        SessionStep::Finish(
            Err(fault::input_fault("protocol session state operation failed")),
        )
    } else if history.len() == 1 {
        SessionStep::Perform(SessionAction::Run)
    } else if history.len() == 2 {
        SessionStep::Perform(SessionAction::Close)
    } else if history[2] is Err && history[1] is Ok {
        SessionStep::Finish(
            Err(fault::input_fault("protocol session state operation failed")),
        )
    } else {
        SessionStep::Finish(history[1])
    }
}

/// Serves the session of an accepted connection.
pub fn serve_accepted_connection(
    envelope: &IpcEnvelope,
    history: &Vec<Result<(), Fault>>,
) -> (step: SessionStep)
    ensures
        step == serve_step(envelope.error is Some, history@),
{
    if envelope.error.is_some() {
        return SessionStep::Finish(Err(invalid_data("frontend reported an IPC envelope error")));
    }
    if history.len() == 0 {
        return SessionStep::Perform(SessionAction::Open);
    }
    if history[0].is_err() {
        return SessionStep::Finish(
            Err(invalid_input("protocol session state operation failed")),
        );
    }
    if history.len() == 1 {
        return SessionStep::Perform(SessionAction::Run);
    }
    if history.len() == 2 {
        return SessionStep::Perform(SessionAction::Close);
    }
    let ended: Result<(), Fault> = history[1];
    if history[2].is_err() && ended.is_ok() {
        return SessionStep::Finish(
            Err(invalid_input("protocol session state operation failed")),
        );
    }
    SessionStep::Finish(ended)
}

/// A session that ran is closed before it ends, whatever came of it, and ends well only where it
/// was opened, run and closed without failure.
pub proof fn session_that_ran_is_closed(reports_error: bool, history: Seq<Result<(), Fault>>)
    requires
        !reports_error,
        history.len() >= 1,
        history[0] is Ok,
    ensures
        history.len() == 2 ==> serve_step(reports_error, history) == SessionStep::Perform(
            SessionAction::Close,
        ),
        serve_step(reports_error, history) matches SessionStep::Finish(ended) ==> history.len()
            >= 3 && (ended is Ok <==> history[1] is Ok && history[2] is Ok),
{
}

} // verus!
