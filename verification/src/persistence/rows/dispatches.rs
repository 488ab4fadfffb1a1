//! The way of an attempt on the rows, from its dispatch to its end: what goes on is recorded of it,
//! its request and its reservation alike, and of nothing else.

use crate::crypto;
use crate::persistence::attempts::{
    self, CapacityReservationPhase, CompletedBuildRequest, DispatchedBuildRequest,
    ExecutionAttempt, ExecutionAttemptError, ExecutionAttemptFailure, ExecutionAttemptState,
};
use crate::persistence::database::{
    self, AttemptRow, DatabaseFault, OutcomeRow, QueuedRequestRow, Reply, ReservationRow,
    Statement, Step,
};
use crate::persistence::rows::recovery::name_of;
use crate::persistence::rows::{self, end_is_reached, next_is_done};
use crate::persistence::{outcomes, queue};
use crate::service::ipc::MAX_IPC_COMPONENT_BYTES;
use crate::text;
use vstd::prelude::*;

verus! {

/// Requests and attempts under their names, reservations and outcomes under those of their
/// attempts, and how many leases on outputs hold for requests.
pub struct DispatchRows {
    pub requests: Map<Seq<char>, QueuedRequestRow>,
    pub attempts: Map<Seq<char>, AttemptRow>,
    pub reservations: Map<Seq<char>, ReservationRow>,
    pub outcomes: Map<Seq<char>, OutcomeRow>,
    pub outputs: Map<Seq<char>, i64>,
}

/// A row of a request is another one in another state.
pub open spec fn request_moved(
    row: QueuedRequestRow,
    before: QueuedRequestRow,
    state: Seq<char>,
) -> bool {
    row == (QueuedRequestRow { queue_state: row.queue_state, ..before }) && row.queue_state@ == state
}

/// A row of a reservation is another one in another phase.
pub open spec fn reservation_moved(
    row: ReservationRow,
    before: ReservationRow,
    phase: Seq<char>,
) -> bool {
    row == (ReservationRow { phase: row.phase, ..before }) && row.phase@ == phase
}

/// A row of a reservation is another one after its release.
pub open spec fn reservation_released(row: ReservationRow, before: ReservationRow) -> bool {
    &&& row == (ReservationRow { released_at: row.released_at, ..before })
    &&& row.released_at is Some
    &&& row.released_at->0 >= before.created_at
}

/// A row of an attempt is another one that came into a state.
pub open spec fn attempt_moved(
    row: AttemptRow,
    before: AttemptRow,
    state: Seq<char>,
    execution: Option<String>,
) -> bool {
    &&& row.state@ == state
    &&& if state == "backend-pending"@ {
        &&& row == (AttemptRow {
            state: row.state,
            backend_execution_id: row.backend_execution_id,
            submitted_at: row.submitted_at,
            ..before
        })
        &&& row.submitted_at is Some
        &&& match (row.backend_execution_id, execution) {
            (Some(recorded), Some(given)) => recorded@ == given@,
            (None, None) => true,
            _ => false,
        }
    } else if state == "running"@ {
        row == (AttemptRow { state: row.state, started_at: row.started_at, ..before })
            && row.started_at is Some
    } else {
        row == (AttemptRow { state: row.state, collecting_at: row.collecting_at, ..before })
            && row.collecting_at is Some
    }
}

/// A row of an attempt is another one that ended in a state.
pub open spec fn attempt_ended(row: AttemptRow, before: AttemptRow, state: Seq<char>) -> bool {
    &&& row == (AttemptRow { state: row.state, completed_at: row.completed_at, ..before })
    &&& row.state@ == state
    &&& row.completed_at is Some
}

/// What statements do on the way of an attempt.
pub open spec fn dispatches_change(
    before: DispatchRows,
    statement: Statement,
    reply: Reply,
    after: DispatchRows,
) -> bool {
    match statement {
        Statement::Begin | Statement::Commit => reply is Done && after == before,
        Statement::LockQueuedRequest { request_id } => after == before
            && if before.requests.contains_key(request_id@) {
            reply == Reply::QueuedRequest(Some(before.requests[request_id@]))
        } else {
            reply == Reply::QueuedRequest(None)
        },
        Statement::LockAttempt { attempt_id } | Statement::ReadAttempt { attempt_id } => after
            == before && if before.attempts.contains_key(attempt_id@) {
            reply == Reply::Attempt(Some(before.attempts[attempt_id@]))
        } else {
            reply == Reply::Attempt(None)
        },
        Statement::InsertAttempt { attempt_id, request_id, ordinal, idempotency_key, backend } => {
            if before.attempts.contains_key(attempt_id@) {
                reply == Reply::Failed(DatabaseFault::UniqueViolation) && after == before
            } else {
                match reply {
                    Reply::Attempt(Some(row)) => {
                        &&& is_new_attempt(
                            row,
                            attempt_id@,
                            request_id@,
                            ordinal,
                            idempotency_key@,
                            backend@,
                        )
                        &&& after == (DispatchRows {
                            attempts: before.attempts.insert(attempt_id@, row),
                            ..before
                        })
                    },
                    _ => false,
                }
            }
        },
        Statement::InsertReservation { reservation_id, attempt_id, quota_subject, units } => {
            if before.reservations.contains_key(attempt_id@) {
                reply == Reply::Failed(DatabaseFault::UniqueViolation) && after == before
            } else {
                match reply {
                    Reply::Reservation(Some(row)) => {
                        &&& is_new_reservation(
                            row,
                            reservation_id@,
                            attempt_id@,
                            quota_subject@,
                            units,
                        )
                        &&& after == (DispatchRows {
                            reservations: before.reservations.insert(attempt_id@, row),
                            ..before
                        })
                    },
                    _ => false,
                }
            }
        },
        Statement::MoveRequest { request_id, from, to } => if before.requests.contains_key(
            request_id@,
        ) && before.requests[request_id@].queue_state@ == from@ {
            match reply {
                Reply::QueuedRequest(Some(row)) => request_moved(
                    row,
                    before.requests[request_id@],
                    to@,
                ) && after == (DispatchRows {
                    requests: before.requests.insert(request_id@, row),
                    ..before
                }),
                _ => false,
            }
        } else {
            reply == Reply::QueuedRequest(None) && after == before
        },
        Statement::MoveReservation { attempt_id, from, to } => if is_reserved(
            before,
            attempt_id@,
            from@,
        ) {
            match reply {
                Reply::Reservation(Some(row)) => reservation_moved(
                    row,
                    before.reservations[attempt_id@],
                    to@,
                ) && after == (DispatchRows {
                    reservations: before.reservations.insert(attempt_id@, row),
                    ..before
                }),
                _ => false,
            }
        } else {
            reply == Reply::Reservation(None) && after == before
        },
        Statement::ReleaseReservation { attempt_id, phase } => if is_reserved(
            before,
            attempt_id@,
            phase@,
        ) {
            match reply {
                Reply::Reservation(Some(row)) => reservation_released(
                    row,
                    before.reservations[attempt_id@],
                ) && after == (DispatchRows {
                    reservations: before.reservations.insert(attempt_id@, row),
                    ..before
                }),
                _ => false,
            }
        } else {
            reply == Reply::Reservation(None) && after == before
        },
        Statement::MoveAttempt { attempt_id, from, to, backend_execution_id } => {
            if before.attempts.contains_key(attempt_id@) && before.attempts[attempt_id@].state@
                == from@ {
                match reply {
                    Reply::Attempt(Some(row)) => attempt_moved(
                        row,
                        before.attempts[attempt_id@],
                        to@,
                        backend_execution_id,
                    ) && after == (DispatchRows {
                        attempts: before.attempts.insert(attempt_id@, row),
                        ..before
                    }),
                    _ => false,
                }
            } else {
                reply == Reply::Attempt(None) && after == before
            }
        },
        Statement::EndAttempt { attempt_id, from, to } => {
            if before.attempts.contains_key(attempt_id@) && before.attempts[attempt_id@].state@
                == from@ {
                match reply {
                    Reply::Attempt(Some(row)) => attempt_ended(
                        row,
                        before.attempts[attempt_id@],
                        to@,
                    ) && after == (DispatchRows {
                        attempts: before.attempts.insert(attempt_id@, row),
                        ..before
                    }),
                    _ => false,
                }
            } else {
                reply == Reply::Attempt(None) && after == before
            }
        },
        Statement::InsertOutcome { attempt_id, classification, result_metadata } => {
            outcome_is_inserted(
                before,
                attempt_id@,
                classification@,
                result_metadata@,
                reply,
                after,
            )
        },
        Statement::InsertSuccess { attempt_id, result_metadata } => outcome_is_inserted(
            before,
            attempt_id@,
            "succeeded"@,
            result_metadata@,
            reply,
            after,
        ),
        Statement::CountOutputLeases { request_id } => after == before && match reply {
            Reply::Count(leases) => leases == before.outputs[request_id@],
            _ => false,
        },
        _ => true,
    }
}

/// A row is a new attempt, which is being dispatched.
pub open spec fn is_new_attempt(
    row: AttemptRow,
    attempt_id: Seq<char>,
    request_id: Seq<char>,
    ordinal: i32,
    idempotency_key: Seq<char>,
    backend: Seq<char>,
) -> bool {
    &&& row.attempt_id@ == attempt_id
    &&& row.request_id@ == request_id
    &&& row.ordinal == ordinal
    &&& row.idempotency_key@ == idempotency_key
    &&& row.backend@ == backend
    &&& row.backend_execution_id is None
    &&& row.state@ == "dispatching"@
    &&& row.submitted_at is None
    &&& row.started_at is None
    &&& row.collecting_at is None
    &&& row.completed_at is None
    &&& row.fenced_at is None
}

/// A row is a new reservation.
pub open spec fn is_new_reservation(
    row: ReservationRow,
    reservation_id: Seq<char>,
    attempt_id: Seq<char>,
    quota_subject: Seq<char>,
    units: i32,
) -> bool {
    &&& row.reservation_id@ == reservation_id
    &&& row.attempt_id@ == attempt_id
    &&& row.phase@ == "dispatching"@
    &&& row.quota_subject@ == quota_subject
    &&& row.units == units
    &&& row.released_at is None
}

/// An attempt has a reservation in a phase that was not released.
pub open spec fn is_reserved(table: DispatchRows, attempt_id: Seq<char>, phase: Seq<char>) -> bool {
    &&& table.reservations.contains_key(attempt_id)
    &&& table.reservations[attempt_id].phase@ == phase
    &&& table.reservations[attempt_id].released_at is None
}

/// The outcome of an attempt is inserted, once. Metadata is kept as JSON.
pub open spec fn outcome_is_inserted(
    before: DispatchRows,
    attempt_id: Seq<char>,
    classification: Seq<char>,
    result_metadata: Seq<char>,
    reply: Reply,
    after: DispatchRows,
) -> bool {
    if before.outcomes.contains_key(attempt_id) {
        reply == Reply::Failed(DatabaseFault::UniqueViolation) && after == before
    } else {
        match reply {
            Reply::Outcome(Some(row)) => is_new_outcome(
                row,
                attempt_id,
                classification,
                result_metadata,
            ) && after == (DispatchRows {
                outcomes: before.outcomes.insert(attempt_id, row),
                ..before
            }),
            _ => false,
        }
    }
}

/// A row is a new outcome.
pub open spec fn is_new_outcome(
    row: OutcomeRow,
    attempt_id: Seq<char>,
    classification: Seq<char>,
    result_metadata: Seq<char>,
) -> bool {
    &&& row.attempt_id@ == attempt_id
    &&& row.classification@ == classification
    &&& crypto::json_equal(row.result_metadata@, result_metadata)
    &&& crypto::json_is_object(row.result_metadata@) == crypto::json_is_object(result_metadata)
}

/// The model of the way of an attempt.
pub open spec fn on_dispatches() -> spec_fn(DispatchRows, Statement, Reply, DispatchRows) -> bool {
    |before: DispatchRows, statement: Statement, reply: Reply, after: DispatchRows|
        dispatches_change(before, statement, reply, after)
}

proof fn names_differ()
    ensures
        "dispatching"@.len() == 11 && "dispatching"@[0] == 'd',
        "reconciling"@.len() == 11 && "reconciling"@[0] == 'r',
        "backend-pending"@.len() == 15,
        "running"@.len() == 7,
        "collecting"@.len() == 10,
        "queued"@.len() == 6 && "queued"@[0] == 'q',
        "failed"@.len() == 6 && "failed"@[0] == 'f',
        "accepted"@.len() == 8,
        "completed"@.len() == 9 && "completed"@[1] == 'o',
        "cancelled"@.len() == 9 && "cancelled"@[1] == 'a',
        "succeeded"@.len() == 9 && "succeeded"@[0] == 's',
{
    reveal_strlit("dispatching");
    reveal_strlit("reconciling");
    reveal_strlit("backend-pending");
    reveal_strlit("running");
    reveal_strlit("collecting");
    reveal_strlit("queued");
    reveal_strlit("failed");
    reveal_strlit("accepted");
    reveal_strlit("completed");
    reveal_strlit("cancelled");
    reveal_strlit("succeeded");
}

/// The rows of an attempt, its request and its reservation can be read.
pub open spec fn are_readable(
    table: DispatchRows,
    attempt_id: Seq<char>,
    maximum_path_bytes: nat,
) -> bool {
    &&& table.attempts.contains_key(attempt_id) ==> {
        let request_id = table.attempts[attempt_id].request_id@;
        &&& table.attempts[attempt_id].attempt_id@ == attempt_id
        &&& attempts::attempt_of(table.attempts[attempt_id]) is Some
        &&& table.requests.contains_key(request_id) ==> table.requests[request_id].request_id@
            == request_id && queue::queued_of(table.requests[request_id], maximum_path_bytes)
            is Some
    }
    &&& table.reservations.contains_key(attempt_id) ==> attempts::reservation_of(
        table.reservations[attempt_id],
    ) is Some
}

/// An attempt, its request and its reservation are in a phase.
pub open spec fn is_at(table: DispatchRows, attempt_id: Seq<char>, phase: Seq<char>) -> bool {
    let request_id = table.attempts[attempt_id].request_id@;
    &&& table.attempts.contains_key(attempt_id)
    &&& table.attempts[attempt_id].state@ == phase
    &&& table.requests.contains_key(request_id)
    &&& table.requests[request_id].queue_state@ == phase
    &&& is_reserved(table, attempt_id, phase)
}

/// What was returned are the rows of an attempt, its request and its reservation.
pub open spec fn is_dispatched(
    found: DispatchedBuildRequest,
    table: DispatchRows,
    attempt_id: Seq<char>,
    maximum_path_bytes: nat,
) -> bool {
    let row = table.attempts[attempt_id];
    &&& attempts::attempt_of(row) == Some(found.attempt)
    &&& queue::queued_of(table.requests[row.request_id@], maximum_path_bytes) == Some(found.request)
    &&& attempts::reservation_of(table.reservations[attempt_id]) == Some(found.reservation)
}

/// The making of an attempt.
pub open spec fn attempting(
    database_url: Seq<char>,
    attempt_id: String,
    request_id: String,
    ordinal: i32,
    idempotency_key: String,
    backend: String,
) -> spec_fn(Seq<Reply>) -> Step<ExecutionAttempt, ExecutionAttemptError> {
    |history: Seq<Reply>|
        attempts::create_step(
            database_url,
            attempt_id,
            request_id,
            ordinal,
            idempotency_key,
            backend,
            history,
        )
}

/// An attempt is made under a name that is free, as it was asked for. A name that is taken is a
/// conflict, and nothing changes.
pub proof fn attempt_is_made(
    database_url: Seq<char>,
    attempt_id: String,
    request_id: String,
    ordinal: i32,
    idempotency_key: String,
    backend: String,
    tables: Seq<DispatchRows>,
    history: Seq<Reply>,
)
    requires
        !text::is_blank(database_url),
        database::is_component(attempt_id@),
        database::is_component(request_id@),
        ordinal > 0,
        database::is_component(idempotency_key@),
        database::is_component(backend@),
        rows::ran(
            attempting(database_url, attempt_id, request_id, ordinal, idempotency_key, backend),
            on_dispatches(),
            tables,
            history,
        ),
    ensures
        ({
            let step = attempts::create_step(
                database_url,
                attempt_id,
                request_id,
                ordinal,
                idempotency_key,
                backend,
                history,
            );
            let row = tables.last().attempts[attempt_id@];
            if tables[0].attempts.contains_key(attempt_id@) {
                step == attempts::failed::<ExecutionAttempt>(ExecutionAttemptFailure::Conflict)
                    && tables.last() == tables[0]
            } else {
                &&& is_new_attempt(
                    row,
                    attempt_id@,
                    request_id@,
                    ordinal,
                    idempotency_key@,
                    backend@,
                )
                &&& tables.last() == (DispatchRows {
                    attempts: tables[0].attempts.insert(attempt_id@, row),
                    ..tables[0]
                })
                &&& step matches Step::Finish(Ok(attempt)) && attempts::attempt_of(row) == Some(
                    attempt,
                )
            }
        }),
{
    let operation = attempting(
        database_url,
        attempt_id,
        request_id,
        ordinal,
        idempotency_key,
        backend,
    );
    names_differ();
    next_is_done(operation, on_dispatches(), tables, history, 0);
    next_is_done(operation, on_dispatches(), tables, history, 1);
    if tables[0].attempts.contains_key(attempt_id@) {
        end_is_reached(operation, on_dispatches(), tables, history, 2);
    } else {
        next_is_done(operation, on_dispatches(), tables, history, 2);
        end_is_reached(operation, on_dispatches(), tables, history, 3);
    }
}

/// The reading of an attempt.
pub open spec fn reading(database_url: Seq<char>, attempt_id: String) -> spec_fn(
    Seq<Reply>,
) -> Step<Option<ExecutionAttempt>, ExecutionAttemptError> {
    |history: Seq<Reply>| attempts::read_step(database_url, attempt_id, history)
}

/// An attempt as it is recorded.
pub open spec fn is_recorded(attempt: ExecutionAttempt, row: AttemptRow) -> bool {
    &&& attempt.attempt_id@ == row.attempt_id@
    &&& attempt.request_id@ == row.request_id@
    &&& attempt.ordinal == row.ordinal
    &&& attempt.idempotency_key@ == row.idempotency_key@
    &&& attempt.backend@ == row.backend@
    &&& attempt.backend_execution_id == row.backend_execution_id
    &&& row.state@ == match attempt.state {
        ExecutionAttemptState::Dispatching => "dispatching"@,
        ExecutionAttemptState::Reconciling => "reconciling"@,
        ExecutionAttemptState::BackendPending => "backend-pending"@,
        ExecutionAttemptState::Running => "running"@,
        ExecutionAttemptState::Collecting => "collecting"@,
        ExecutionAttemptState::Succeeded => "succeeded"@,
        ExecutionAttemptState::Failed => "failed"@,
        ExecutionAttemptState::Cancelled => "cancelled"@,
    }
    &&& attempt.created_at == row.created_at
    &&& attempt.submitted_at == row.submitted_at
    &&& attempt.started_at == row.started_at
    &&& attempt.collecting_at == row.collecting_at
    &&& attempt.completed_at == row.completed_at
    &&& attempt.fenced_at == row.fenced_at
}

/// An attempt is read as it is recorded, and nothing where there is none.
pub proof fn recorded_attempt_is_read(
    database_url: Seq<char>,
    attempt_id: String,
    tables: Seq<DispatchRows>,
    history: Seq<Reply>,
)
    requires
        !text::is_blank(database_url),
        database::is_component(attempt_id@),
        tables[0].attempts.contains_key(attempt_id@) ==> attempts::attempt_of(
            tables[0].attempts[attempt_id@],
        ) is Some,
        rows::ran(reading(database_url, attempt_id), on_dispatches(), tables, history),
    ensures
        attempts::read_step(database_url, attempt_id, history) matches Step::Finish(Ok(read))
            && if tables[0].attempts.contains_key(attempt_id@) {
            read matches Some(attempt) && is_recorded(attempt, tables[0].attempts[attempt_id@])
        } else {
            read is None
        },
        tables.last() == tables[0],
{
    let operation = reading(database_url, attempt_id);
    next_is_done(operation, on_dispatches(), tables, history, 0);
    next_is_done(operation, on_dispatches(), tables, history, 1);
    end_is_reached(operation, on_dispatches(), tables, history, 2);
}

/// The dispatch of a queued request.
pub open spec fn dispatching(
    database_url: Seq<char>,
    request_id: String,
    attempt_id: String,
    ordinal: i32,
    idempotency_key: String,
    backend: String,
    reservation_id: String,
    units: i32,
    maximum_path_bytes: nat,
) -> spec_fn(Seq<Reply>) -> Step<DispatchedBuildRequest, ExecutionAttemptError> {
    |history: Seq<Reply>|
        attempts::dispatch_step(
            database_url,
            request_id,
            attempt_id,
            ordinal,
            idempotency_key,
            backend,
            reservation_id,
            units,
            maximum_path_bytes,
            history,
        )
}

/// A queued request is dispatched: it is in dispatch from then on, there is a new attempt at it as
/// asked for, and for that a reservation of the capacity asked for, on account of the subject of the
/// request. All else is as before. A request that is not queued is refused, and nothing changes.
#[verifier::rlimit(60)]
pub proof fn queued_request_is_dispatched(
    database_url: Seq<char>,
    request_id: String,
    attempt_id: String,
    ordinal: i32,
    idempotency_key: String,
    backend: String,
    reservation_id: String,
    units: i32,
    maximum_path_bytes: nat,
    tables: Seq<DispatchRows>,
    history: Seq<Reply>,
)
    requires
        !text::is_blank(database_url),
        database::is_component(attempt_id@),
        database::is_component(request_id@),
        ordinal > 0,
        database::is_component(idempotency_key@),
        database::is_component(backend@),
        database::is_component(reservation_id@),
        units > 0,
        tables[0].requests.contains_key(request_id@) ==> queue::queued_of(
            tables[0].requests[request_id@],
            maximum_path_bytes,
        ) is Some,
        !tables[0].attempts.contains_key(attempt_id@),
        !tables[0].reservations.contains_key(attempt_id@),
        rows::ran(
            dispatching(
                database_url,
                request_id,
                attempt_id,
                ordinal,
                idempotency_key,
                backend,
                reservation_id,
                units,
                maximum_path_bytes,
            ),
            on_dispatches(),
            tables,
            history,
        ),
    ensures
        ({
            let step = attempts::dispatch_step(
                database_url,
                request_id,
                attempt_id,
                ordinal,
                idempotency_key,
                backend,
                reservation_id,
                units,
                maximum_path_bytes,
                history,
            );
            let before = tables[0];
            let after = tables.last();
            if !before.requests.contains_key(request_id@)
                || before.requests[request_id@].queue_state@ != "queued"@ {
                step == attempts::failed::<DispatchedBuildRequest>(
                    ExecutionAttemptFailure::InvalidState,
                ) && after == before
            } else {
                &&& is_new_attempt(
                    after.attempts[attempt_id@],
                    attempt_id@,
                    request_id@,
                    ordinal,
                    idempotency_key@,
                    backend@,
                )
                &&& is_new_reservation(
                    after.reservations[attempt_id@],
                    reservation_id@,
                    attempt_id@,
                    before.requests[request_id@].quota_subject@,
                    units,
                )
                &&& request_moved(
                    after.requests[request_id@],
                    before.requests[request_id@],
                    "dispatching"@,
                )
                &&& after == (DispatchRows {
                    requests: before.requests.insert(request_id@, after.requests[request_id@]),
                    attempts: before.attempts.insert(attempt_id@, after.attempts[attempt_id@]),
                    reservations: before.reservations.insert(
                        attempt_id@,
                        after.reservations[attempt_id@],
                    ),
                    ..before
                })
                &&& step matches Step::Finish(Ok(dispatched)) && is_dispatched(
                    dispatched,
                    after,
                    attempt_id@,
                    maximum_path_bytes,
                )
            }
        }),
{
    let operation = dispatching(
        database_url,
        request_id,
        attempt_id,
        ordinal,
        idempotency_key,
        backend,
        reservation_id,
        units,
        maximum_path_bytes,
    );
    let before = tables[0];
    names_differ();
    next_is_done(operation, on_dispatches(), tables, history, 0);
    next_is_done(operation, on_dispatches(), tables, history, 1);
    if !before.requests.contains_key(request_id@) || before.requests[request_id@].queue_state@
        != "queued"@ {
        end_is_reached(operation, on_dispatches(), tables, history, 2);
    } else {
        next_is_done(operation, on_dispatches(), tables, history, 2);
        next_is_done(operation, on_dispatches(), tables, history, 3);
        next_is_done(operation, on_dispatches(), tables, history, 4);
        next_is_done(operation, on_dispatches(), tables, history, 5);
        end_is_reached(operation, on_dispatches(), tables, history, 6);
    }
}

/// An attempt, its request and its reservation came from one phase to the next, and all else is as
/// before.
pub open spec fn goes_on(
    before: DispatchRows,
    after: DispatchRows,
    attempt_id: Seq<char>,
    phase: Seq<char>,
    execution: Option<String>,
    maximum_path_bytes: nat,
    moved: DispatchedBuildRequest,
) -> bool {
    let request_id = before.attempts[attempt_id].request_id@;
    &&& attempt_moved(
        after.attempts[attempt_id],
        before.attempts[attempt_id],
        phase,
        execution,
    )
    &&& request_moved(after.requests[request_id], before.requests[request_id], phase)
    &&& reservation_moved(
        after.reservations[attempt_id],
        before.reservations[attempt_id],
        phase,
    )
    &&& after == (DispatchRows {
        requests: before.requests.insert(request_id, after.requests[request_id]),
        attempts: before.attempts.insert(attempt_id, after.attempts[attempt_id]),
        reservations: before.reservations.insert(attempt_id, after.reservations[attempt_id]),
        ..before
    })
    &&& is_dispatched(moved, after, attempt_id, maximum_path_bytes)
}

/// How an attempt goes on is recorded where it, its request and its reservation are in the phase
/// before, and else refused, without a change where the attempt is not there or in another phase.
pub open spec fn goes_on_from(
    before: DispatchRows,
    after: DispatchRows,
    attempt_id: Seq<char>,
    from: Seq<char>,
    to: Seq<char>,
    execution: Option<String>,
    maximum_path_bytes: nat,
    step: Step<DispatchedBuildRequest, ExecutionAttemptError>,
) -> bool {
    if is_at(before, attempt_id, from) {
        step matches Step::Finish(Ok(moved)) && goes_on(
            before,
            after,
            attempt_id,
            to,
            execution,
            maximum_path_bytes,
            moved,
        )
    } else {
        step == attempts::failed::<DispatchedBuildRequest>(ExecutionAttemptFailure::InvalidState)
            && after == before
    }
}

#[verifier::rlimit(80)]
proof fn advance_goes_on(
    operation: spec_fn(Seq<Reply>) -> Step<DispatchedBuildRequest, ExecutionAttemptError>,
    database_url: Seq<char>,
    attempt_id: String,
    from: CapacityReservationPhase,
    to: CapacityReservationPhase,
    execution: Option<String>,
    maximum_path_bytes: nat,
    tables: Seq<DispatchRows>,
    history: Seq<Reply>,
)
    requires
        !text::is_blank(database_url),
        database::is_component(attempt_id@),
        execution is Some ==> database::is_component(execution->0@),
        match from {
            CapacityReservationPhase::Dispatching => to is BackendPending && execution is Some,
            CapacityReservationPhase::BackendPending => to is Running && execution is None,
            CapacityReservationPhase::Running => to is Collecting && execution is None,
            CapacityReservationPhase::Collecting => false,
        },
        are_readable(tables[0], attempt_id@, maximum_path_bytes),
        rows::ran(operation, on_dispatches(), tables, history),
        forall|begun: Seq<Reply>| #[trigger]
            operation(begun) == attempts::advance_step(
                database_url,
                attempt_id,
                from,
                to,
                execution,
                maximum_path_bytes,
                begun,
            ),
    ensures
        goes_on_from(
            tables[0],
            tables.last(),
            attempt_id@,
            name_of(from),
            name_of(to),
            execution,
            maximum_path_bytes,
            operation(history),
        ),
{
    let before = tables[0];
    let id = attempt_id@;
    let request_id = before.attempts[id].request_id@;
    names_differ();
    next_is_done(operation, on_dispatches(), tables, history, 0);
    next_is_done(operation, on_dispatches(), tables, history, 1);
    if !before.attempts.contains_key(id) || before.attempts[id].state@ != name_of(from) {
        end_is_reached(operation, on_dispatches(), tables, history, 2);
    } else {
        next_is_done(operation, on_dispatches(), tables, history, 2);
        if !before.requests.contains_key(request_id) || before.requests[request_id].queue_state@
            != name_of(from) {
            end_is_reached(operation, on_dispatches(), tables, history, 3);
        } else {
            next_is_done(operation, on_dispatches(), tables, history, 3);
            if !is_reserved(before, id, name_of(from)) {
                end_is_reached(operation, on_dispatches(), tables, history, 4);
            } else {
                next_is_done(operation, on_dispatches(), tables, history, 4);
                next_is_done(operation, on_dispatches(), tables, history, 5);
                next_is_done(operation, on_dispatches(), tables, history, 6);
                end_is_reached(operation, on_dispatches(), tables, history, 7);
            }
        }
    }
}

/// The record that the backend took an attempt.
pub open spec fn submitting(
    database_url: Seq<char>,
    attempt_id: String,
    execution: String,
    maximum_path_bytes: nat,
) -> spec_fn(Seq<Reply>) -> Step<DispatchedBuildRequest, ExecutionAttemptError> {
    |history: Seq<Reply>|
        attempts::submission_step(database_url, attempt_id, execution, maximum_path_bytes, history)
}

/// Once the backend took an attempt that was being dispatched, it is pending there under the
/// execution that was given, with its request and its reservation.
pub proof fn submitted_attempt_is_pending(
    database_url: Seq<char>,
    attempt_id: String,
    execution: String,
    maximum_path_bytes: nat,
    tables: Seq<DispatchRows>,
    history: Seq<Reply>,
)
    requires
        !text::is_blank(database_url),
        database::is_component(attempt_id@),
        database::is_component(execution@),
        are_readable(tables[0], attempt_id@, maximum_path_bytes),
        rows::ran(
            submitting(database_url, attempt_id, execution, maximum_path_bytes),
            on_dispatches(),
            tables,
            history,
        ),
    ensures
        goes_on_from(
            tables[0],
            tables.last(),
            attempt_id@,
            "dispatching"@,
            "backend-pending"@,
            Some(execution),
            maximum_path_bytes,
            attempts::submission_step(
                database_url,
                attempt_id,
                execution,
                maximum_path_bytes,
                history,
            ),
        ),
{
    advance_goes_on(
        submitting(database_url, attempt_id, execution, maximum_path_bytes),
        database_url,
        attempt_id,
        CapacityReservationPhase::Dispatching,
        CapacityReservationPhase::BackendPending,
        Some(execution),
        maximum_path_bytes,
        tables,
        history,
    );
}

/// The record that the backend runs an attempt.
pub open spec fn starting(
    database_url: Seq<char>,
    attempt_id: String,
    maximum_path_bytes: nat,
) -> spec_fn(Seq<Reply>) -> Step<DispatchedBuildRequest, ExecutionAttemptError> {
    |history: Seq<Reply>|
        attempts::running_step(database_url, attempt_id, maximum_path_bytes, history)
}

/// Once the backend runs an attempt that was pending, it is running, with its request and its
/// reservation.
pub proof fn started_attempt_is_running(
    database_url: Seq<char>,
    attempt_id: String,
    maximum_path_bytes: nat,
    tables: Seq<DispatchRows>,
    history: Seq<Reply>,
)
    requires
        !text::is_blank(database_url),
        database::is_component(attempt_id@),
        are_readable(tables[0], attempt_id@, maximum_path_bytes),
        rows::ran(
            starting(database_url, attempt_id, maximum_path_bytes),
            on_dispatches(),
            tables,
            history,
        ),
    ensures
        goes_on_from(
            tables[0],
            tables.last(),
            attempt_id@,
            "backend-pending"@,
            "running"@,
            None,
            maximum_path_bytes,
            attempts::running_step(database_url, attempt_id, maximum_path_bytes, history),
        ),
{
    advance_goes_on(
        starting(database_url, attempt_id, maximum_path_bytes),
        database_url,
        attempt_id,
        CapacityReservationPhase::BackendPending,
        CapacityReservationPhase::Running,
        None,
        maximum_path_bytes,
        tables,
        history,
    );
}

/// The record that the backend completed an attempt.
pub open spec fn completing(
    database_url: Seq<char>,
    attempt_id: String,
    maximum_path_bytes: nat,
) -> spec_fn(Seq<Reply>) -> Step<DispatchedBuildRequest, ExecutionAttemptError> {
    |history: Seq<Reply>|
        attempts::completed_step(database_url, attempt_id, maximum_path_bytes, history)
}

/// Once the backend completed an attempt that was running, its outputs are collected, with its
/// request and its reservation.
pub proof fn completed_attempt_is_collecting(
    database_url: Seq<char>,
    attempt_id: String,
    maximum_path_bytes: nat,
    tables: Seq<DispatchRows>,
    history: Seq<Reply>,
)
    requires
        !text::is_blank(database_url),
        database::is_component(attempt_id@),
        are_readable(tables[0], attempt_id@, maximum_path_bytes),
        rows::ran(
            completing(database_url, attempt_id, maximum_path_bytes),
            on_dispatches(),
            tables,
            history,
        ),
    ensures
        goes_on_from(
            tables[0],
            tables.last(),
            attempt_id@,
            "running"@,
            "collecting"@,
            None,
            maximum_path_bytes,
            attempts::completed_step(database_url, attempt_id, maximum_path_bytes, history),
        ),
{
    advance_goes_on(
        completing(database_url, attempt_id, maximum_path_bytes),
        database_url,
        attempt_id,
        CapacityReservationPhase::Running,
        CapacityReservationPhase::Collecting,
        None,
        maximum_path_bytes,
        tables,
        history,
    );
}

/// Everything about an attempt ended: its reservation is released, it and its request are in the
/// states of that end, its outcome is recorded, and all else is as before.
pub open spec fn is_over(
    before: DispatchRows,
    after: DispatchRows,
    attempt_id: Seq<char>,
    attempt_state: Seq<char>,
    queue_state: Seq<char>,
    classification: Seq<char>,
    result_metadata: Seq<char>,
    maximum_path_bytes: nat,
    ended: CompletedBuildRequest,
) -> bool {
    let request_id = before.attempts[attempt_id].request_id@;
    &&& reservation_released(
        after.reservations[attempt_id],
        before.reservations[attempt_id],
    )
    &&& attempt_ended(after.attempts[attempt_id], before.attempts[attempt_id], attempt_state)
    &&& is_new_outcome(
        after.outcomes[attempt_id],
        attempt_id,
        classification,
        result_metadata,
    )
    &&& request_moved(after.requests[request_id], before.requests[request_id], queue_state)
    &&& after == (DispatchRows {
        requests: before.requests.insert(request_id, after.requests[request_id]),
        attempts: before.attempts.insert(attempt_id, after.attempts[attempt_id]),
        reservations: before.reservations.insert(attempt_id, after.reservations[attempt_id]),
        outcomes: before.outcomes.insert(attempt_id, after.outcomes[attempt_id]),
        ..before
    })
    &&& attempts::attempt_of(after.attempts[attempt_id]) == Some(ended.attempt)
    &&& queue::queued_of(after.requests[request_id], maximum_path_bytes) == Some(ended.request)
    &&& attempts::reservation_of(after.reservations[attempt_id]) == Some(ended.reservation)
    &&& outcomes::outcome_of(after.outcomes[attempt_id]) == Some(ended.outcome)
}

#[verifier::rlimit(80)]
proof fn rest_is_over(
    operation: spec_fn(Seq<Reply>) -> Step<CompletedBuildRequest, ExecutionAttemptError>,
    attempt_id: String,
    request_id: String,
    phase: CapacityReservationPhase,
    attempt_state: &'static str,
    queue_state: &'static str,
    insertion: Statement,
    classification: Seq<char>,
    result_metadata: Seq<char>,
    place: int,
    maximum_path_bytes: nat,
    tables: Seq<DispatchRows>,
    history: Seq<Reply>,
)
    requires
        rows::ran(operation, on_dispatches(), tables, history),
        3 <= place <= history.len(),
        tables[place] == tables[0],
        is_at(tables[0], attempt_id@, name_of(phase)),
        are_readable(tables[0], attempt_id@, maximum_path_bytes),
        request_id@ == tables[0].attempts[attempt_id@].request_id@,
        !tables[0].outcomes.contains_key(attempt_id@),
        (attempt_state@ == "succeeded"@ && queue_state@ == "completed"@) || (attempt_state@
            == "failed"@ && queue_state@ == "failed"@),
        insertion == (Statement::InsertSuccess {
            attempt_id,
            result_metadata: insertion->InsertSuccess_result_metadata,
        }) && classification == "succeeded"@ && insertion->InsertSuccess_result_metadata@
            == result_metadata || insertion == (Statement::InsertOutcome {
            attempt_id,
            classification: insertion->InsertOutcome_classification,
            result_metadata: insertion->InsertOutcome_result_metadata,
        }) && insertion->InsertOutcome_classification@ == classification
            && insertion->InsertOutcome_result_metadata@ == result_metadata,
        database::is_component(classification),
        crypto::json_is_object(result_metadata) == Some(true),
        forall|i: int|
            place <= i <= history.len() ==> #[trigger] operation(history.take(i))
                == attempts::completing_step(
                attempt_id,
                request_id,
                phase,
                attempt_state,
                queue_state,
                insertion,
                place,
                maximum_path_bytes,
                history.take(i),
            ),
    ensures
        operation(history) matches Step::Finish(Ok(ended)) && is_over(
            tables[0],
            tables.last(),
            attempt_id@,
            attempt_state@,
            queue_state@,
            classification,
            result_metadata,
            maximum_path_bytes,
            ended,
        ),
{
    names_differ();
    next_is_done(operation, on_dispatches(), tables, history, place);
    next_is_done(operation, on_dispatches(), tables, history, place + 1);
    next_is_done(operation, on_dispatches(), tables, history, place + 2);
    next_is_done(operation, on_dispatches(), tables, history, place + 3);
    next_is_done(operation, on_dispatches(), tables, history, place + 4);
    end_is_reached(operation, on_dispatches(), tables, history, place + 5);
}

/// The record that an attempt failed.
pub open spec fn failing(
    database_url: Seq<char>,
    attempt_id: String,
    classification: String,
    result_metadata: String,
    maximum_path_bytes: nat,
) -> spec_fn(Seq<Reply>) -> Step<CompletedBuildRequest, ExecutionAttemptError> {
    |history: Seq<Reply>|
        attempts::failure_step(
            database_url,
            attempt_id,
            classification,
            result_metadata,
            maximum_path_bytes,
            history,
        )
}

/// An attempt that is under way in a phase, with its request and its reservation, fails: everything
/// about it ends as failed, with the classification that was given. One that is not is refused, and
/// nothing changes.
#[verifier::rlimit(80)]
pub proof fn attempt_fails(
    database_url: Seq<char>,
    attempt_id: String,
    classification: String,
    result_metadata: String,
    phase: CapacityReservationPhase,
    maximum_path_bytes: nat,
    tables: Seq<DispatchRows>,
    history: Seq<Reply>,
)
    requires
        !text::is_blank(database_url),
        database::is_component(attempt_id@),
        attempts::is_failure(classification@),
        database::is_component(classification@),
        crypto::json_is_object(result_metadata@) == Some(true),
        text::byte_length(result_metadata@) <= MAX_IPC_COMPONENT_BYTES,
        are_readable(tables[0], attempt_id@, maximum_path_bytes),
        tables[0].attempts.contains_key(attempt_id@) ==> tables[0].attempts[attempt_id@].state@
            == name_of(phase),
        !tables[0].outcomes.contains_key(attempt_id@),
        rows::ran(
            failing(
                database_url,
                attempt_id,
                classification,
                result_metadata,
                maximum_path_bytes,
            ),
            on_dispatches(),
            tables,
            history,
        ),
    ensures
        ({
            let step = attempts::failure_step(
                database_url,
                attempt_id,
                classification,
                result_metadata,
                maximum_path_bytes,
                history,
            );
            if is_at(tables[0], attempt_id@, name_of(phase)) {
                step matches Step::Finish(Ok(ended)) && is_over(
                    tables[0],
                    tables.last(),
                    attempt_id@,
                    "failed"@,
                    "failed"@,
                    classification@,
                    result_metadata@,
                    maximum_path_bytes,
                    ended,
                )
            } else {
                step == attempts::failed::<CompletedBuildRequest>(
                    ExecutionAttemptFailure::InvalidState,
                ) && tables.last() == tables[0]
            }
        }),
{
    let operation = failing(
        database_url,
        attempt_id,
        classification,
        result_metadata,
        maximum_path_bytes,
    );
    let before = tables[0];
    let id = attempt_id@;
    let request_id = before.attempts[id].request_id;
    names_differ();
    next_is_done(operation, on_dispatches(), tables, history, 0);
    next_is_done(operation, on_dispatches(), tables, history, 1);
    if !before.attempts.contains_key(id) {
        end_is_reached(operation, on_dispatches(), tables, history, 2);
    } else {
        next_is_done(operation, on_dispatches(), tables, history, 2);
        if !before.requests.contains_key(request_id@) || before.requests[request_id@].queue_state@
            != name_of(phase) {
            end_is_reached(operation, on_dispatches(), tables, history, 3);
        } else {
            let insertion = Statement::InsertOutcome {
                attempt_id,
                classification,
                result_metadata,
            };
            assert forall|i: int| 3 <= i <= history.len() implies #[trigger] operation(
                history.take(i),
            ) == attempts::completing_step(
                attempt_id,
                request_id,
                phase,
                "failed",
                "failed",
                insertion,
                3,
                maximum_path_bytes,
                history.take(i),
            ) by {
                let begun = history.take(i);
                assert(begun[0] == history[0] && begun[1] == history[1] && begun[2] == history[2]);
            }
            if !is_reserved(before, id, name_of(phase)) {
                next_is_done(operation, on_dispatches(), tables, history, 3);
                end_is_reached(operation, on_dispatches(), tables, history, 4);
            } else {
                rest_is_over(
                    operation,
                    attempt_id,
                    request_id,
                    phase,
                    "failed",
                    "failed",
                    insertion,
                    classification@,
                    result_metadata@,
                    3,
                    maximum_path_bytes,
                    tables,
                    history,
                );
            }
        }
    }
}

/// The record that an attempt succeeded.
pub open spec fn succeeding(
    database_url: Seq<char>,
    attempt_id: String,
    result_metadata: String,
    maximum_path_bytes: nat,
) -> spec_fn(Seq<Reply>) -> Step<CompletedBuildRequest, ExecutionAttemptError> {
    |history: Seq<Reply>|
        attempts::success_step(
            database_url,
            attempt_id,
            result_metadata,
            maximum_path_bytes,
            history,
        )
}

/// An attempt whose outputs are collected, with its request and its reservation, and whose request
/// has leases on outputs, succeeds: everything about it ends so. One that is not, or whose outputs
/// nothing holds, is refused, and nothing changes.
#[verifier::rlimit(80)]
pub proof fn attempt_succeeds(
    database_url: Seq<char>,
    attempt_id: String,
    result_metadata: String,
    maximum_path_bytes: nat,
    tables: Seq<DispatchRows>,
    history: Seq<Reply>,
)
    requires
        !text::is_blank(database_url),
        database::is_component(attempt_id@),
        database::is_component("succeeded"@),
        crypto::json_object_size(result_metadata@) matches Some(Some(members)) && members > 0,
        text::byte_length(result_metadata@) <= MAX_IPC_COMPONENT_BYTES,
        are_readable(tables[0], attempt_id@, maximum_path_bytes),
        !tables[0].outcomes.contains_key(attempt_id@),
        rows::ran(
            succeeding(database_url, attempt_id, result_metadata, maximum_path_bytes),
            on_dispatches(),
            tables,
            history,
        ),
    ensures
        ({
            let step = attempts::success_step(
                database_url,
                attempt_id,
                result_metadata,
                maximum_path_bytes,
                history,
            );
            let request_id = tables[0].attempts[attempt_id@].request_id@;
            if is_at(tables[0], attempt_id@, "collecting"@) && tables[0].outputs[request_id] != 0 {
                step matches Step::Finish(Ok(ended)) && is_over(
                    tables[0],
                    tables.last(),
                    attempt_id@,
                    "succeeded"@,
                    "completed"@,
                    "succeeded"@,
                    result_metadata@,
                    maximum_path_bytes,
                    ended,
                )
            } else {
                step == attempts::failed::<CompletedBuildRequest>(
                    ExecutionAttemptFailure::InvalidState,
                ) && tables.last() == tables[0]
            }
        }),
{
    let operation = succeeding(database_url, attempt_id, result_metadata, maximum_path_bytes);
    let before = tables[0];
    let id = attempt_id@;
    let request_id = before.attempts[id].request_id;
    names_differ();
    next_is_done(operation, on_dispatches(), tables, history, 0);
    next_is_done(operation, on_dispatches(), tables, history, 1);
    if !before.attempts.contains_key(id) || before.attempts[id].state@ != "collecting"@ {
        end_is_reached(operation, on_dispatches(), tables, history, 2);
    } else {
        next_is_done(operation, on_dispatches(), tables, history, 2);
        if !before.requests.contains_key(request_id@) || before.requests[request_id@].queue_state@
            != "collecting"@ {
            end_is_reached(operation, on_dispatches(), tables, history, 3);
        } else {
            next_is_done(operation, on_dispatches(), tables, history, 3);
            if before.outputs[request_id@] == 0 {
                end_is_reached(operation, on_dispatches(), tables, history, 4);
            } else {
                let insertion = Statement::InsertSuccess { attempt_id, result_metadata };
                assert forall|i: int| 4 <= i <= history.len() implies #[trigger] operation(
                    history.take(i),
                ) == attempts::completing_step(
                    attempt_id,
                    request_id,
                    CapacityReservationPhase::Collecting,
                    "succeeded",
                    "completed",
                    insertion,
                    4,
                    maximum_path_bytes,
                    history.take(i),
                ) by {
                    let begun = history.take(i);
                    assert(begun[0] == history[0] && begun[1] == history[1]);
                    assert(begun[2] == history[2] && begun[3] == history[3]);
                }
                if !is_reserved(before, id, "collecting"@) {
                    next_is_done(operation, on_dispatches(), tables, history, 4);
                    end_is_reached(operation, on_dispatches(), tables, history, 5);
                } else {
                    rest_is_over(
                        operation,
                        attempt_id,
                        request_id,
                        CapacityReservationPhase::Collecting,
                        "succeeded",
                        "completed",
                        insertion,
                        "succeeded"@,
                        result_metadata@,
                        4,
                        maximum_path_bytes,
                        tables,
                        history,
                    );
                }
            }
        }
    }
}

} // verus!
