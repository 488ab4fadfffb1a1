//! Attempts on their rows and on those of their requests and reservations: the three pass through
//! the phases together, and what is fenced stays so.

use crate::crypto;
use crate::persistence::attempts::{
    self, CapacityReservationPhase, CompletedBuildRequest, DispatchedBuildRequest,
    ExecutionAttemptError, ExecutionAttemptFailure, ExecutionAttemptState,
};
use crate::persistence::database::{
    self, AttemptRow, DatabaseFault, OutcomeRow, QueuedRequestRow, Reply, ReservationRow,
    Statement, Step,
};
use crate::persistence::outcomes;
use crate::persistence::queue::{self, BuildQueueState};
use crate::persistence::rows::{self, end_is_reached, next_is_done};
use crate::service::ipc::MAX_IPC_COMPONENT_BYTES;
use crate::text;
use vstd::prelude::*;

verus! {

/// Requests and attempts under their names, and reservations and outcomes under those of their
/// attempts.
pub struct AttemptRows {
    pub requests: Map<Seq<char>, QueuedRequestRow>,
    pub attempts: Map<Seq<char>, AttemptRow>,
    pub reservations: Map<Seq<char>, ReservationRow>,
    pub outcomes: Map<Seq<char>, OutcomeRow>,
}

/// Two optional texts agree.
pub open spec fn same_execution(left: Option<String>, right: Option<String>) -> bool {
    match (left, right) {
        (Some(left), Some(right)) => left@ == right@,
        (None, None) => true,
        _ => false,
    }
}

/// A row of a request is another one in another state.
pub open spec fn is_moved_request(
    row: QueuedRequestRow,
    before: QueuedRequestRow,
    state: Seq<char>,
) -> bool {
    &&& row.request_id@ == before.request_id@
    &&& row.derivation_path@ == before.derivation_path@
    &&& row.system@ == before.system@
    &&& row.queue_state@ == state
    &&& row.queued_at == before.queued_at
    &&& row.audit_subject@ == before.audit_subject@
    &&& row.quota_subject@ == before.quota_subject@
    &&& row.created_at == before.created_at
}

/// A row of an attempt is another one in another state.
pub open spec fn is_moved_attempt(row: AttemptRow, before: AttemptRow, state: Seq<char>) -> bool {
    &&& row.attempt_id@ == before.attempt_id@
    &&& row.request_id@ == before.request_id@
    &&& row.ordinal == before.ordinal
    &&& row.idempotency_key@ == before.idempotency_key@
    &&& row.backend@ == before.backend@
    &&& row.state@ == state
    &&& row.created_at == before.created_at
    &&& row.completed_at == before.completed_at
}

/// A row of a reservation is another one in a phase.
pub open spec fn is_moved_reservation(
    row: ReservationRow,
    before: ReservationRow,
    phase: Seq<char>,
) -> bool {
    &&& row.reservation_id@ == before.reservation_id@
    &&& row.attempt_id@ == before.attempt_id@
    &&& row.phase@ == phase
    &&& row.quota_subject@ == before.quota_subject@
    &&& row.units == before.units
    &&& row.created_at == before.created_at
}

/// An attempt can move to a state with the execution that is given for it.
pub open spec fn can_move(
    row: AttemptRow,
    from: Seq<char>,
    to: Seq<char>,
    execution: Option<String>,
) -> bool {
    &&& row.state@ == from
    &&& if to == "backend-pending"@ {
        row.backend_execution_id is None && row.submitted_at is None
    } else if to == "running"@ {
        execution is None && row.backend_execution_id is Some && row.submitted_at is Some
            && row.started_at is None
    } else {
        execution is None && row.started_at is Some && row.collecting_at is None
            && row.completed_at is None
    }
}

/// An attempt has moved to a state, and the moment that belongs to it is recorded.
pub open spec fn has_moved(
    row: AttemptRow,
    before: AttemptRow,
    to: Seq<char>,
    execution: Option<String>,
) -> bool {
    &&& is_moved_attempt(row, before, to)
    &&& row.fenced_at == before.fenced_at
    &&& if to == "backend-pending"@ {
        &&& same_execution(row.backend_execution_id, execution)
        &&& row.submitted_at is Some
        &&& row.started_at == before.started_at
        &&& row.collecting_at == before.collecting_at
    } else if to == "running"@ {
        &&& same_execution(row.backend_execution_id, before.backend_execution_id)
        &&& row.submitted_at == before.submitted_at
        &&& row.started_at is Some
        &&& row.collecting_at == before.collecting_at
    } else {
        &&& same_execution(row.backend_execution_id, before.backend_execution_id)
        &&& row.submitted_at == before.submitted_at
        &&& row.started_at == before.started_at
        &&& row.collecting_at is Some
    }
}

/// An attempt is being dispatched, and nobody fenced it.
pub open spec fn is_dispatching(row: AttemptRow) -> bool {
    &&& row.state@ == "dispatching"@
    &&& row.backend_execution_id is None
    &&& row.submitted_at is None
    &&& row.fenced_at is None
}

/// An attempt can end so from a state: with success only once its outputs are collected.
pub open spec fn can_end(row: AttemptRow, from: Seq<char>, to: Seq<char>) -> bool {
    &&& row.state@ == from
    &&& row.completed_at is None
    &&& to == "succeeded"@ ==> row.collecting_at is Some
}

/// An attempt has ended in a state, and the moment is recorded.
pub open spec fn has_ended(row: AttemptRow, before: AttemptRow, to: Seq<char>) -> bool {
    &&& row.attempt_id@ == before.attempt_id@
    &&& row.request_id@ == before.request_id@
    &&& row.ordinal == before.ordinal
    &&& row.idempotency_key@ == before.idempotency_key@
    &&& row.backend@ == before.backend@
    &&& same_execution(row.backend_execution_id, before.backend_execution_id)
    &&& row.state@ == to
    &&& row.created_at == before.created_at
    &&& row.submitted_at == before.submitted_at
    &&& row.started_at == before.started_at
    &&& row.collecting_at == before.collecting_at
    &&& row.completed_at is Some
    &&& row.fenced_at == before.fenced_at
}

/// What a statement does that inserts the outcome of an attempt. Metadata is kept as JSON: what is
/// read has the value of what was written.
pub open spec fn outcome_is_inserted(
    before: AttemptRows,
    attempt_id: Seq<char>,
    classification: Seq<char>,
    result_metadata: Seq<char>,
    reply: Reply,
    after: AttemptRows,
) -> bool {
    if before.outcomes.contains_key(attempt_id) {
        reply == Reply::Failed(DatabaseFault::UniqueViolation) && after == before
    } else {
        match reply {
            Reply::Outcome(Some(row)) => {
                &&& row.attempt_id@ == attempt_id
                &&& row.classification@ == classification
                &&& crypto::json_equal(row.result_metadata@, result_metadata)
                &&& after == (AttemptRows {
                    outcomes: before.outcomes.insert(attempt_id, row),
                    ..before
                })
            },
            _ => false,
        }
    }
}

/// Rows are attempts that are being dispatched, oldest first and at most so many.
pub open spec fn are_dispatching(
    listed: Seq<AttemptRow>,
    attempts: Map<Seq<char>, AttemptRow>,
    maximum_rows: i64,
) -> bool {
    &&& listed.len() <= maximum_rows
    &&& forall|i: int|
        0 <= i < listed.len() ==> {
            &&& attempts.contains_key((#[trigger] listed[i]).attempt_id@)
            &&& attempts[listed[i].attempt_id@] == listed[i]
            &&& is_dispatching(listed[i])
        }
    &&& forall|i: int, j: int|
        0 <= i < j < listed.len() ==> (#[trigger] listed[i]).created_at <= (
        #[trigger] listed[j]).created_at && listed[i].attempt_id@ != listed[j].attempt_id@
}

/// What statements do to requests, attempts and reservations.
pub open spec fn attempts_change(
    before: AttemptRows,
    statement: Statement,
    reply: Reply,
    after: AttemptRows,
) -> bool {
    match statement {
        Statement::Begin | Statement::Commit => reply is Done && after == before,
        Statement::LockQueuedRequest { request_id } => after == before
            && if before.requests.contains_key(request_id@) {
            reply == Reply::QueuedRequest(Some(before.requests[request_id@]))
        } else {
            reply == Reply::QueuedRequest(None)
        },
        Statement::LockAttempt { attempt_id } => after == before
            && if before.attempts.contains_key(attempt_id@) {
            reply == Reply::Attempt(Some(before.attempts[attempt_id@]))
        } else {
            reply == Reply::Attempt(None)
        },
        Statement::MoveRequest { request_id, from, to } => if before.requests.contains_key(
            request_id@,
        ) && before.requests[request_id@].queue_state@ == from@ {
            match reply {
                Reply::QueuedRequest(Some(row)) => {
                    &&& is_moved_request(row, before.requests[request_id@], to@)
                    &&& after == (AttemptRows {
                        requests: before.requests.insert(request_id@, row),
                        ..before
                    })
                },
                _ => false,
            }
        } else {
            reply == Reply::QueuedRequest(None) && after == before
        },
        Statement::InsertAttempt { attempt_id, request_id, ordinal, idempotency_key, backend } =>
        match reply {
            Reply::Attempt(Some(row)) => {
                &&& !before.attempts.contains_key(attempt_id@)
                &&& row.attempt_id@ == attempt_id@
                &&& row.request_id@ == request_id@
                &&& row.ordinal == ordinal
                &&& row.idempotency_key@ == idempotency_key@
                &&& row.backend@ == backend@
                &&& row.backend_execution_id is None
                &&& row.state@ == "dispatching"@
                &&& row.submitted_at is None
                &&& row.started_at is None
                &&& row.collecting_at is None
                &&& row.completed_at is None
                &&& row.fenced_at is None
                &&& after == (AttemptRows {
                    attempts: before.attempts.insert(attempt_id@, row),
                    ..before
                })
            },
            Reply::Failed(DatabaseFault::UniqueViolation) => after == before,
            _ => false,
        },
        Statement::InsertReservation { reservation_id, attempt_id, quota_subject, units } =>
        match reply {
            Reply::Reservation(Some(row)) => {
                &&& !before.reservations.contains_key(attempt_id@)
                &&& row.reservation_id@ == reservation_id@
                &&& row.attempt_id@ == attempt_id@
                &&& row.phase@ == "dispatching"@
                &&& row.quota_subject@ == quota_subject@
                &&& row.units == units
                &&& row.released_at is None
                &&& after == (AttemptRows {
                    reservations: before.reservations.insert(attempt_id@, row),
                    ..before
                })
            },
            Reply::Failed(DatabaseFault::UniqueViolation) => after == before,
            _ => false,
        },
        Statement::MoveReservation { attempt_id, from, to } =>
        if before.reservations.contains_key(attempt_id@)
            && before.reservations[attempt_id@].phase@ == from@
            && before.reservations[attempt_id@].released_at is None {
            match reply {
                Reply::Reservation(Some(row)) => {
                    &&& is_moved_reservation(row, before.reservations[attempt_id@], to@)
                    &&& row.released_at is None
                    &&& after == (AttemptRows {
                        reservations: before.reservations.insert(attempt_id@, row),
                        ..before
                    })
                },
                _ => false,
            }
        } else {
            reply == Reply::Reservation(None) && after == before
        },
        Statement::ReleaseReservation { attempt_id, phase } =>
        if before.reservations.contains_key(attempt_id@)
            && before.reservations[attempt_id@].phase@ == phase@
            && before.reservations[attempt_id@].released_at is None {
            match reply {
                Reply::Reservation(Some(row)) => {
                    &&& is_moved_reservation(row, before.reservations[attempt_id@], phase@)
                    &&& row.released_at is Some
                    &&& after == (AttemptRows {
                        reservations: before.reservations.insert(attempt_id@, row),
                        ..before
                    })
                },
                _ => false,
            }
        } else {
            reply == Reply::Reservation(None) && after == before
        },
        Statement::MoveAttempt { attempt_id, from, to, backend_execution_id } =>
        if before.attempts.contains_key(attempt_id@) && can_move(
            before.attempts[attempt_id@],
            from@,
            to@,
            backend_execution_id,
        ) {
            match reply {
                Reply::Attempt(Some(row)) => {
                    &&& has_moved(row, before.attempts[attempt_id@], to@, backend_execution_id)
                    &&& after == (AttemptRows {
                        attempts: before.attempts.insert(attempt_id@, row),
                        ..before
                    })
                },
                _ => false,
            }
        } else {
            reply == Reply::Attempt(None) && after == before
        },
        Statement::FenceDispatchingAttempt { attempt_id } =>
        if before.attempts.contains_key(attempt_id@) && is_dispatching(
            before.attempts[attempt_id@],
        ) {
            match reply {
                Reply::Attempt(Some(row)) => {
                    &&& is_moved_attempt(row, before.attempts[attempt_id@], "reconciling"@)
                    &&& row.backend_execution_id is None
                    &&& row.submitted_at is None
                    &&& row.started_at == before.attempts[attempt_id@].started_at
                    &&& row.collecting_at == before.attempts[attempt_id@].collecting_at
                    &&& row.fenced_at is Some
                    &&& after == (AttemptRows {
                        attempts: before.attempts.insert(attempt_id@, row),
                        ..before
                    })
                },
                _ => false,
            }
        } else {
            reply == Reply::Attempt(None) && after == before
        },
        Statement::EndAttempt { attempt_id, from, to } => if before.attempts.contains_key(
            attempt_id@,
        ) && can_end(before.attempts[attempt_id@], from@, to@) {
            match reply {
                Reply::Attempt(Some(row)) => {
                    &&& has_ended(row, before.attempts[attempt_id@], to@)
                    &&& after == (AttemptRows {
                        attempts: before.attempts.insert(attempt_id@, row),
                        ..before
                    })
                },
                _ => false,
            }
        } else {
            reply == Reply::Attempt(None) && after == before
        },
        Statement::InsertOutcome { attempt_id, classification, result_metadata } =>
        outcome_is_inserted(
            before,
            attempt_id@,
            classification@,
            result_metadata@,
            reply,
            after,
        ),
        Statement::InsertSuccess { attempt_id, result_metadata } => outcome_is_inserted(
            before,
            attempt_id@,
            "succeeded"@,
            result_metadata@,
            reply,
            after,
        ),
        Statement::CountOutputLeases { .. } => after == before && match reply {
            Reply::Count(leases) => leases >= 0,
            _ => false,
        },
        Statement::LockDispatchingAttempts { maximum_rows } => after == before && match reply {
            Reply::Attempts(listed) => are_dispatching(listed@, before.attempts, maximum_rows),
            _ => false,
        },
        _ => true,
    }
}

/// The model of requests, attempts and reservations.
pub open spec fn on_attempts() -> spec_fn(AttemptRows, Statement, Reply, AttemptRows) -> bool {
    |before: AttemptRows, statement: Statement, reply: Reply, after: AttemptRows|
        attempts_change(before, statement, reply, after)
}

/// The dispatch of a queued request.
pub open spec fn dispatching(
    database_url: Seq<char>,
    request_id: String,
    attempt_id: String,
    ordinal: i32,
    idempotency_key: String,
    backend: String,
    reservation_id: String,
    units: i32,
    maximum_path_bytes: nat,
) -> spec_fn(Seq<Reply>) -> Step<DispatchedBuildRequest, ExecutionAttemptError> {
    |history: Seq<Reply>|
        attempts::dispatch_step(
            database_url,
            request_id,
            attempt_id,
            ordinal,
            idempotency_key,
            backend,
            reservation_id,
            units,
            maximum_path_bytes,
            history,
        )
}

/// The move of an attempt from one phase to the next.
pub open spec fn advancing(
    database_url: Seq<char>,
    attempt_id: String,
    from: CapacityReservationPhase,
    to: CapacityReservationPhase,
    backend_execution_id: Option<String>,
    maximum_path_bytes: nat,
) -> spec_fn(Seq<Reply>) -> Step<DispatchedBuildRequest, ExecutionAttemptError> {
    |history: Seq<Reply>|
        attempts::advance_step(
            database_url,
            attempt_id,
            from,
            to,
            backend_execution_id,
            maximum_path_bytes,
            history,
        )
}

/// An attempt, its request and its reservation are all in a phase, and are those that are given.
pub open spec fn is_in_phase(
    table: AttemptRows,
    attempt_id: Seq<char>,
    phase: CapacityReservationPhase,
    maximum_path_bytes: nat,
    found: DispatchedBuildRequest,
) -> bool {
    let request_id = found.attempt.request_id@;
    &&& table.attempts.contains_key(attempt_id)
    &&& attempts::attempt_of(table.attempts[attempt_id]) == Some(found.attempt)
    &&& found.attempt.state == phase.spec_attempt_state()
    &&& table.requests.contains_key(request_id)
    &&& queue::queued_of(table.requests[request_id], maximum_path_bytes) == Some(found.request)
    &&& found.request.queue_state == phase.spec_queue_state()
    &&& table.reservations.contains_key(attempt_id)
    &&& attempts::reservation_of(table.reservations[attempt_id]) == Some(found.reservation)
    &&& found.reservation.phase == phase
    &&& found.reservation.released_at is None
    &&& (found.attempt.backend_execution_id is None) == (phase
        == CapacityReservationPhase::Dispatching)
}

/// The names of the states are told apart by these.
proof fn names_differ()
    ensures
        "dispatching"@.len() == 11 && "dispatching"@[0] == 'd',
        "reconciling"@.len() == 11 && "reconciling"@[0] == 'r',
        "backend-pending"@.len() == 15,
        "running"@.len() == 7,
        "collecting"@.len() == 10,
        "queued"@.len() == 6 && "queued"@[0] == 'q',
        "failed"@.len() == 6 && "failed"@[0] == 'f',
        "accepted"@.len() == 8,
        "completed"@.len() == 9,
        "cancelled"@.len() == 9,
        "succeeded"@.len() == 9,
{
    reveal_strlit("dispatching");
    reveal_strlit("reconciling");
    reveal_strlit("backend-pending");
    reveal_strlit("running");
    reveal_strlit("collecting");
    reveal_strlit("queued");
    reveal_strlit("failed");
    reveal_strlit("accepted");
    reveal_strlit("completed");
    reveal_strlit("cancelled");
    reveal_strlit("succeeded");
}

/// Who dispatches a request finds it, its attempt and its reservation being dispatched.
pub proof fn dispatched_request_is_dispatching(
    database_url: Seq<char>,
    request_id: String,
    attempt_id: String,
    ordinal: i32,
    idempotency_key: String,
    backend: String,
    reservation_id: String,
    units: i32,
    maximum_path_bytes: nat,
    tables: Seq<AttemptRows>,
    history: Seq<Reply>,
    dispatched: DispatchedBuildRequest,
)
    requires
        rows::ran(
            dispatching(
                database_url,
                request_id,
                attempt_id,
                ordinal,
                idempotency_key,
                backend,
                reservation_id,
                units,
                maximum_path_bytes,
            ),
            on_attempts(),
            tables,
            history,
        ),
        attempts::dispatch_step(
            database_url,
            request_id,
            attempt_id,
            ordinal,
            idempotency_key,
            backend,
            reservation_id,
            units,
            maximum_path_bytes,
            history,
        ) == Step::<DispatchedBuildRequest, ExecutionAttemptError>::Finish(Ok(dispatched)),
    ensures
        is_in_phase(
            tables.last(),
            attempt_id@,
            CapacityReservationPhase::Dispatching,
            maximum_path_bytes,
            dispatched,
        ),
        dispatched.reservation.reservation_id@ == reservation_id@,
        dispatched.reservation.units == units,
{
    let operation = dispatching(
        database_url,
        request_id,
        attempt_id,
        ordinal,
        idempotency_key,
        backend,
        reservation_id,
        units,
        maximum_path_bytes,
    );
    names_differ();
    next_is_done(operation, on_attempts(), tables, history, 0);
    next_is_done(operation, on_attempts(), tables, history, 1);
    next_is_done(operation, on_attempts(), tables, history, 2);
    next_is_done(operation, on_attempts(), tables, history, 3);
    next_is_done(operation, on_attempts(), tables, history, 4);
    next_is_done(operation, on_attempts(), tables, history, 5);
    end_is_reached(operation, on_attempts(), tables, history, 6);
}

/// A phase comes right after another, and an execution is given exactly where the backend takes
/// the attempt.
pub open spec fn is_next(
    from: CapacityReservationPhase,
    to: CapacityReservationPhase,
    execution: Option<String>,
) -> bool {
    match from {
        CapacityReservationPhase::Dispatching => to == CapacityReservationPhase::BackendPending
            && execution is Some,
        CapacityReservationPhase::BackendPending => to == CapacityReservationPhase::Running
            && execution is None,
        CapacityReservationPhase::Running => to == CapacityReservationPhase::Collecting && execution
            is None,
        CapacityReservationPhase::Collecting => false,
    }
}

/// An attempt in a phase can move to the next one, and what has moved there is in it.
proof fn attempts_move(
    before: AttemptRow,
    from: CapacityReservationPhase,
    to: CapacityReservationPhase,
    execution: Option<String>,
)
    requires
        is_next(from, to, execution),
        execution is Some ==> database::is_component(execution->0@),
        attempts::attempt_of(before) is Some,
        attempts::attempt_of(before)->0.state == from.spec_attempt_state(),
        (before.backend_execution_id is None) == (from == CapacityReservationPhase::Dispatching),
    ensures
        can_move(before, from.spec_name()@, to.spec_name()@, execution),
        forall|row: AttemptRow| #[trigger]
            has_moved(row, before, to.spec_name()@, execution) ==> {
                &&& attempts::attempt_of(row) is Some
                &&& attempts::attempt_of(row)->0.state == to.spec_attempt_state()
                &&& same_execution(
                    row.backend_execution_id,
                    if execution is Some {
                        execution
                    } else {
                        before.backend_execution_id
                    },
                )
            },
{
    names_differ();
}

/// A request in a phase is named so, and what has moved to another phase is in it.
proof fn requests_move(
    before: QueuedRequestRow,
    from: CapacityReservationPhase,
    to: CapacityReservationPhase,
    maximum_path_bytes: nat,
)
    requires
        queue::queued_of(before, maximum_path_bytes) is Some,
        queue::queued_of(before, maximum_path_bytes)->0.queue_state == from.spec_queue_state(),
    ensures
        before.queue_state@ == from.spec_name()@,
        forall|row: QueuedRequestRow| #[trigger]
            is_moved_request(row, before, to.spec_name()@) ==> {
                &&& queue::queued_of(row, maximum_path_bytes) is Some
                &&& queue::queued_of(row, maximum_path_bytes)->0.queue_state
                    == to.spec_queue_state()
            },
{
    names_differ();
}

/// A reservation in a phase is named so, and what has moved to another phase is in it.
proof fn reservations_move(
    before: ReservationRow,
    from: CapacityReservationPhase,
    to: CapacityReservationPhase,
)
    requires
        attempts::reservation_of(before) is Some,
        attempts::reservation_of(before)->0.phase == from,
    ensures
        before.phase@ == from.spec_name()@,
        forall|row: ReservationRow| #[trigger]
            is_moved_reservation(row, before, to.spec_name()@) && row.released_at is None ==> {
                &&& attempts::reservation_of(row) is Some
                &&& attempts::reservation_of(row)->0.phase == to
            },
{
    attempts::phase_names_are_distinct(to);
}

/// Attempt and request are found in the phase that they are in, and what is left is to move them.
proof fn phase_is_found(
    database_url: Seq<char>,
    attempt_id: String,
    from: CapacityReservationPhase,
    to: CapacityReservationPhase,
    execution: Option<String>,
    maximum_path_bytes: nat,
    tables: Seq<AttemptRows>,
    history: Seq<Reply>,
    found: DispatchedBuildRequest,
)
    requires
        !text::is_blank(database_url),
        database::is_component(attempt_id@),
        execution is Some ==> database::is_component(execution->0@),
        is_in_phase(tables[0], attempt_id@, from, maximum_path_bytes, found),
        rows::ran(
            advancing(database_url, attempt_id, from, to, execution, maximum_path_bytes),
            on_attempts(),
            tables,
            history,
        ),
    ensures
        history.len() >= 3,
        tables[3] == tables[0],
        forall|i: int|
            3 <= i <= history.len() ==> attempts::advance_step(
                database_url,
                attempt_id,
                from,
                to,
                execution,
                maximum_path_bytes,
                #[trigger] history.take(i),
            ) == attempts::moving_step(
                attempt_id,
                found.attempt.request_id,
                from,
                to,
                execution,
                maximum_path_bytes,
                history.take(i),
            ),
{
    let operation = advancing(
        database_url,
        attempt_id,
        from,
        to,
        execution,
        maximum_path_bytes,
    );
    next_is_done(operation, on_attempts(), tables, history, 0);
    next_is_done(operation, on_attempts(), tables, history, 1);
    next_is_done(operation, on_attempts(), tables, history, 2);
}

/// An attempt, its request and its reservation that are in a phase move to the next one together.
/// The reservation stays what it is and is not released, and the attempt keeps its execution once
/// it has one.
pub proof fn phases_follow_each_other(
    database_url: Seq<char>,
    attempt_id: String,
    from: CapacityReservationPhase,
    to: CapacityReservationPhase,
    execution: Option<String>,
    maximum_path_bytes: nat,
    tables: Seq<AttemptRows>,
    history: Seq<Reply>,
    found: DispatchedBuildRequest,
)
    requires
        is_next(from, to, execution),
        !text::is_blank(database_url),
        database::is_component(attempt_id@),
        execution is Some ==> database::is_component(execution->0@),
        is_in_phase(tables[0], attempt_id@, from, maximum_path_bytes, found),
        rows::ran(
            advancing(database_url, attempt_id, from, to, execution, maximum_path_bytes),
            on_attempts(),
            tables,
            history,
        ),
    ensures
        attempts::advance_step(
            database_url,
            attempt_id,
            from,
            to,
            execution,
            maximum_path_bytes,
            history,
        ) matches Step::Finish(Ok(moved)) && {
            &&& is_in_phase(tables.last(), attempt_id@, to, maximum_path_bytes, moved)
            &&& moved.attempt.request_id@ == found.attempt.request_id@
            &&& moved.reservation.reservation_id@ == found.reservation.reservation_id@
            &&& moved.reservation.units == found.reservation.units
            &&& same_execution(
                moved.attempt.backend_execution_id,
                if execution is Some {
                    execution
                } else {
                    found.attempt.backend_execution_id
                },
            )
        },
{
    let operation = advancing(
        database_url,
        attempt_id,
        from,
        to,
        execution,
        maximum_path_bytes,
    );
    let request_id = found.attempt.request_id@;
    attempts_move(tables[0].attempts[attempt_id@], from, to, execution);
    requests_move(tables[0].requests[request_id], from, to, maximum_path_bytes);
    reservations_move(tables[0].reservations[attempt_id@], from, to);
    phase_is_found(
        database_url,
        attempt_id,
        from,
        to,
        execution,
        maximum_path_bytes,
        tables,
        history,
        found,
    );
    assert(history.take(history.len() as int) =~= history);
    next_is_done(operation, on_attempts(), tables, history, 3);
    let reservation = history[3]->Reservation_0->0;
    assert(history[3] == Reply::Reservation(Some(reservation)));
    assert(attempts::reservation_of(reservation) is Some);
    next_is_done(operation, on_attempts(), tables, history, 4);
    let attempt = history[4]->Attempt_0->0;
    assert(history[4] == Reply::Attempt(Some(attempt)));
    assert(attempts::attempt_of(attempt) is Some);
    next_is_done(operation, on_attempts(), tables, history, 5);
    let request = history[5]->QueuedRequest_0->0;
    assert(history[5] == Reply::QueuedRequest(Some(request)));
    assert(queue::queued_of(request, maximum_path_bytes) is Some);
    next_is_done(operation, on_attempts(), tables, history, 6);
    end_is_reached(operation, on_attempts(), tables, history, 7);
}

/// An attempt that is in another phase than it is to move from is refused, and nothing changes.
pub proof fn other_phases_are_refused(
    database_url: Seq<char>,
    attempt_id: String,
    phase: CapacityReservationPhase,
    from: CapacityReservationPhase,
    to: CapacityReservationPhase,
    execution: Option<String>,
    maximum_path_bytes: nat,
    tables: Seq<AttemptRows>,
    history: Seq<Reply>,
    found: DispatchedBuildRequest,
)
    requires
        phase != from,
        !text::is_blank(database_url),
        database::is_component(attempt_id@),
        execution is Some ==> database::is_component(execution->0@),
        is_in_phase(tables[0], attempt_id@, phase, maximum_path_bytes, found),
        rows::ran(
            advancing(database_url, attempt_id, from, to, execution, maximum_path_bytes),
            on_attempts(),
            tables,
            history,
        ),
    ensures
        attempts::advance_step(
            database_url,
            attempt_id,
            from,
            to,
            execution,
            maximum_path_bytes,
            history,
        ) == attempts::failed::<DispatchedBuildRequest>(ExecutionAttemptFailure::InvalidState),
        tables.last() == tables[0],
{
    let operation = advancing(
        database_url,
        attempt_id,
        from,
        to,
        execution,
        maximum_path_bytes,
    );
    next_is_done(operation, on_attempts(), tables, history, 0);
    next_is_done(operation, on_attempts(), tables, history, 1);
    end_is_reached(operation, on_attempts(), tables, history, 2);
}

/// A request that was dispatched, whose attempt the backend took under an execution and then ran,
/// is collected once the backend has completed it: attempt, request and reservation are all being
/// collected, the attempt has that execution, and the reservation is the one that was made, with
/// its units, and is held. To record the completion again is refused, and so it would have been
/// before the backend ran the attempt.
pub proof fn completed_attempt_is_collected(
    database_url: Seq<char>,
    request_id: String,
    attempt_id: String,
    ordinal: i32,
    idempotency_key: String,
    backend: String,
    reservation_id: String,
    units: i32,
    execution: String,
    maximum_path_bytes: nat,
    dispatch: (Seq<AttemptRows>, Seq<Reply>),
    submission: (Seq<AttemptRows>, Seq<Reply>),
    early: (Seq<AttemptRows>, Seq<Reply>),
    running: (Seq<AttemptRows>, Seq<Reply>),
    completion: (Seq<AttemptRows>, Seq<Reply>),
    again: (Seq<AttemptRows>, Seq<Reply>),
)
    requires
        rows::ran(
            dispatching(
                database_url,
                request_id,
                attempt_id,
                ordinal,
                idempotency_key,
                backend,
                reservation_id,
                units,
                maximum_path_bytes,
            ),
            on_attempts(),
            dispatch.0,
            dispatch.1,
        ),
        attempts::dispatch_step(
            database_url,
            request_id,
            attempt_id,
            ordinal,
            idempotency_key,
            backend,
            reservation_id,
            units,
            maximum_path_bytes,
            dispatch.1,
        ) matches Step::Finish(Ok(_)),
        rows::ran(
            submitting(database_url, attempt_id, execution, maximum_path_bytes),
            on_attempts(),
            submission.0,
            submission.1,
        ),
        submitting(
            database_url,
            attempt_id,
            execution,
            maximum_path_bytes,
        )(submission.1) matches Step::Finish(Ok(_)),
        submission.0[0] == dispatch.0.last(),
        rows::ran(
            completing(database_url, attempt_id, maximum_path_bytes),
            on_attempts(),
            early.0,
            early.1,
        ),
        early.0[0] == submission.0.last(),
        rows::ran(
            starting(database_url, attempt_id, maximum_path_bytes),
            on_attempts(),
            running.0,
            running.1,
        ),
        running.0[0] == submission.0.last(),
        rows::ran(
            completing(database_url, attempt_id, maximum_path_bytes),
            on_attempts(),
            completion.0,
            completion.1,
        ),
        completion.0[0] == running.0.last(),
        rows::ran(
            completing(database_url, attempt_id, maximum_path_bytes),
            on_attempts(),
            again.0,
            again.1,
        ),
        again.0[0] == completion.0.last(),
    ensures
        completing(database_url, attempt_id, maximum_path_bytes)(completion.1) matches Step::Finish(
            Ok(completed),
        ) && {
            &&& completed.attempt.state == ExecutionAttemptState::Collecting
            &&& completed.request.queue_state == BuildQueueState::Collecting
            &&& completed.reservation.phase == CapacityReservationPhase::Collecting
            &&& completed.attempt.backend_execution_id is Some
            &&& completed.attempt.backend_execution_id->0@ == execution@
            &&& completed.reservation.reservation_id@ == reservation_id@
            &&& completed.reservation.units == units
            &&& completed.reservation.released_at is None
        },
        completing(database_url, attempt_id, maximum_path_bytes)(again.1) == attempts::failed::<
            DispatchedBuildRequest,
        >(ExecutionAttemptFailure::InvalidState),
        again.0.last() == completion.0.last(),
        completing(database_url, attempt_id, maximum_path_bytes)(early.1) == attempts::failed::<
            DispatchedBuildRequest,
        >(ExecutionAttemptFailure::InvalidState),
        early.0.last() == submission.0.last(),
{
    let dispatched = attempts::dispatch_step(
        database_url,
        request_id,
        attempt_id,
        ordinal,
        idempotency_key,
        backend,
        reservation_id,
        units,
        maximum_path_bytes,
        dispatch.1,
    )->Finish_0->Ok_0;
    dispatched_request_is_dispatching(
        database_url,
        request_id,
        attempt_id,
        ordinal,
        idempotency_key,
        backend,
        reservation_id,
        units,
        maximum_path_bytes,
        dispatch.0,
        dispatch.1,
        dispatched,
    );
    phases_follow_each_other(
        database_url,
        attempt_id,
        CapacityReservationPhase::Dispatching,
        CapacityReservationPhase::BackendPending,
        Some(execution),
        maximum_path_bytes,
        submission.0,
        submission.1,
        dispatched,
    );
    let submitted = submitting(database_url, attempt_id, execution, maximum_path_bytes)(
        submission.1,
    )->Finish_0->Ok_0;
    other_phases_are_refused(
        database_url,
        attempt_id,
        CapacityReservationPhase::BackendPending,
        CapacityReservationPhase::Running,
        CapacityReservationPhase::Collecting,
        None,
        maximum_path_bytes,
        early.0,
        early.1,
        submitted,
    );
    phases_follow_each_other(
        database_url,
        attempt_id,
        CapacityReservationPhase::BackendPending,
        CapacityReservationPhase::Running,
        None,
        maximum_path_bytes,
        running.0,
        running.1,
        submitted,
    );
    let started = starting(database_url, attempt_id, maximum_path_bytes)(
        running.1,
    )->Finish_0->Ok_0;
    phases_follow_each_other(
        database_url,
        attempt_id,
        CapacityReservationPhase::Running,
        CapacityReservationPhase::Collecting,
        None,
        maximum_path_bytes,
        completion.0,
        completion.1,
        started,
    );
    let completed = completing(database_url, attempt_id, maximum_path_bytes)(
        completion.1,
    )->Finish_0->Ok_0;
    other_phases_are_refused(
        database_url,
        attempt_id,
        CapacityReservationPhase::Collecting,
        CapacityReservationPhase::Running,
        CapacityReservationPhase::Collecting,
        None,
        maximum_path_bytes,
        again.0,
        again.1,
        completed,
    );
}

/// The record that the backend took an attempt.
pub open spec fn submitting(
    database_url: Seq<char>,
    attempt_id: String,
    execution: String,
    maximum_path_bytes: nat,
) -> spec_fn(Seq<Reply>) -> Step<DispatchedBuildRequest, ExecutionAttemptError> {
    advancing(
        database_url,
        attempt_id,
        CapacityReservationPhase::Dispatching,
        CapacityReservationPhase::BackendPending,
        Some(execution),
        maximum_path_bytes,
    )
}

/// The record that the backend runs an attempt.
pub open spec fn starting(
    database_url: Seq<char>,
    attempt_id: String,
    maximum_path_bytes: nat,
) -> spec_fn(Seq<Reply>) -> Step<DispatchedBuildRequest, ExecutionAttemptError> {
    advancing(
        database_url,
        attempt_id,
        CapacityReservationPhase::BackendPending,
        CapacityReservationPhase::Running,
        None,
        maximum_path_bytes,
    )
}

/// The record that the backend completed an attempt.
pub open spec fn completing(
    database_url: Seq<char>,
    attempt_id: String,
    maximum_path_bytes: nat,
) -> spec_fn(Seq<Reply>) -> Step<DispatchedBuildRequest, ExecutionAttemptError> {
    advancing(
        database_url,
        attempt_id,
        CapacityReservationPhase::Running,
        CapacityReservationPhase::Collecting,
        None,
        maximum_path_bytes,
    )
}

/// The recovery of attempts that were being dispatched.
pub open spec fn recovering(
    database_url: Seq<char>,
    limit: usize,
    maximum_path_bytes: nat,
) -> spec_fn(Seq<Reply>) -> Step<Seq<DispatchedBuildRequest>, ExecutionAttemptError> {
    |history: Seq<Reply>|
        attempts::recover_dispatching_step(database_url, limit, maximum_path_bytes, history)
}

/// An attempt was fenced: it waits to be reconciled together with its request, and its
/// reservation is released.
pub open spec fn is_fenced(recovered: DispatchedBuildRequest) -> bool {
    &&& recovered.attempt.state == ExecutionAttemptState::Reconciling
    &&& recovered.attempt.fenced_at is Some
    &&& recovered.request.queue_state == BuildQueueState::Reconciling
    &&& recovered.reservation.released_at is Some
}

/// What is recovered is fenced and comes from the rows that were listed, and the rows say so.
pub open spec fn are_fenced(
    recovered: Seq<DispatchedBuildRequest>,
    listed: Seq<AttemptRow>,
    attempts: Map<Seq<char>, AttemptRow>,
) -> bool {
    &&& recovered.len() <= listed.len()
    &&& forall|i: int|
        0 <= i < recovered.len() ==> {
            &&& is_fenced(#[trigger] recovered[i])
            &&& recovered[i].attempt.attempt_id@ == listed[i].attempt_id@
            &&& recovered[i].attempt.created_at == listed[i].created_at
            &&& attempts.contains_key(listed[i].attempt_id@)
            &&& attempts[listed[i].attempt_id@].fenced_at is Some
        }
}

proof fn rest_is_fenced(
    database_url: Seq<char>,
    limit: usize,
    maximum_path_bytes: nat,
    listed: Seq<AttemptRow>,
    next: nat,
    place: int,
    recovered: Seq<DispatchedBuildRequest>,
    tables: Seq<AttemptRows>,
    history: Seq<Reply>,
    all: Seq<DispatchedBuildRequest>,
)
    requires
        rows::ran(
            recovering(database_url, limit, maximum_path_bytes),
            on_attempts(),
            tables,
            history,
        ),
        attempts::recover_dispatching_step(database_url, limit, maximum_path_bytes, history)
            == Step::<Seq<DispatchedBuildRequest>, ExecutionAttemptError>::Finish(Ok(all)),
        next == recovered.len(),
        next <= listed.len(),
        2 <= place <= history.len(),
        are_fenced(recovered, listed, tables[place].attempts),
        forall|i: int|
            next <= i < listed.len() ==> {
                &&& tables[place].attempts.contains_key((#[trigger] listed[i]).attempt_id@)
                &&& tables[place].attempts[listed[i].attempt_id@] == listed[i]
            },
        forall|i: int, j: int|
            0 <= i < j < listed.len() ==> (#[trigger] listed[i]).attempt_id@ != (
            #[trigger] listed[j]).attempt_id@,
        forall|i: int|
            place <= i <= history.len() ==> attempts::recover_dispatching_step(
                database_url,
                limit,
                maximum_path_bytes,
                #[trigger] history.take(i),
            ) == attempts::fencing_step(
                listed,
                next,
                place,
                recovered,
                maximum_path_bytes,
                history.take(i),
            ),
    ensures
        all.len() == listed.len(),
        are_fenced(all, listed, tables.last().attempts),
    decreases listed.len() - next,
{
    let operation = recovering(database_url, limit, maximum_path_bytes);
    assert(history.take(history.len() as int) =~= history);
    names_differ();
    next_is_done(operation, on_attempts(), tables, history, place);
    if next < listed.len() {
        let current = attempts::attempt_of(listed[next as int])->0;
        next_is_done(operation, on_attempts(), tables, history, place + 1);
        next_is_done(operation, on_attempts(), tables, history, place + 2);
        next_is_done(operation, on_attempts(), tables, history, place + 3);
        let request = attempts::fenced(
            current,
            place,
            maximum_path_bytes,
            history,
        )->Recovered_0;
        let longer = recovered.push(request);
        assert(is_fenced(request));
        assert(are_fenced(longer, listed, tables[place + 4].attempts));
        assert forall|i: int| place + 4 <= i <= history.len() implies
            attempts::recover_dispatching_step(
            database_url,
            limit,
            maximum_path_bytes,
            #[trigger] history.take(i),
        ) == attempts::fencing_step(
            listed,
            next + 1,
            place + 4,
            longer,
            maximum_path_bytes,
            history.take(i),
        ) by {
            let begun = history.take(i);
            assert(begun[place] == history[place]);
            assert(begun[place + 1] == history[place + 1]);
            assert(begun[place + 2] == history[place + 2]);
            assert(begun[place + 3] == history[place + 3]);
        }
        rest_is_fenced(
            database_url,
            limit,
            maximum_path_bytes,
            listed,
            next + 1,
            place + 4,
            longer,
            tables,
            history,
            all,
        );
    } else {
        end_is_reached(operation, on_attempts(), tables, history, place + 1);
        assert(all == recovered);
    }
}

/// Attempts that were being dispatched are recovered, oldest first and at most as many as asked
/// for: each waits to be reconciled together with its request, is fenced, and its reservation is
/// released. The rows say that it is fenced.
pub proof fn recovered_attempts_are_fenced(
    database_url: Seq<char>,
    limit: usize,
    maximum_path_bytes: nat,
    tables: Seq<AttemptRows>,
    history: Seq<Reply>,
    recovered: Seq<DispatchedBuildRequest>,
)
    requires
        rows::ran(
            recovering(database_url, limit, maximum_path_bytes),
            on_attempts(),
            tables,
            history,
        ),
        attempts::recover_dispatching_step(database_url, limit, maximum_path_bytes, history)
            == Step::<Seq<DispatchedBuildRequest>, ExecutionAttemptError>::Finish(Ok(recovered)),
    ensures
        recovered.len() <= limit,
        forall|i: int| 0 <= i < recovered.len() ==> is_fenced(#[trigger] recovered[i]),
        forall|i: int, j: int|
            0 <= i < j < recovered.len() ==> (#[trigger] recovered[i]).attempt.created_at <= (
            #[trigger] recovered[j]).attempt.created_at,
        forall|i: int|
            0 <= i < recovered.len() ==> {
                let id = (#[trigger] recovered[i]).attempt.attempt_id@;
                &&& tables[0].attempts.contains_key(id)
                &&& is_dispatching(tables[0].attempts[id])
                &&& tables.last().attempts.contains_key(id)
                &&& tables.last().attempts[id].fenced_at is Some
            },
{
    let operation = recovering(database_url, limit, maximum_path_bytes);
    next_is_done(operation, on_attempts(), tables, history, 0);
    next_is_done(operation, on_attempts(), tables, history, 1);
    let listed = history[1]->Attempts_0@;
    rest_is_fenced(
        database_url,
        limit,
        maximum_path_bytes,
        listed,
        0,
        2,
        Seq::empty(),
        tables,
        history,
        recovered,
    );
    assert forall|i: int, j: int| 0 <= i < j < recovered.len() implies (
    #[trigger] recovered[i]).attempt.created_at <= (#[trigger] recovered[j]).attempt.created_at by {
        assert(listed[i].created_at <= listed[j].created_at);
    }
}

/// What was recovered is not recovered again.
pub proof fn recovered_attempts_are_not_recovered_again(
    database_url: Seq<char>,
    limit: usize,
    maximum_path_bytes: nat,
    tables: Seq<AttemptRows>,
    history: Seq<Reply>,
    recovered: Seq<DispatchedBuildRequest>,
    later_limit: usize,
    later_tables: Seq<AttemptRows>,
    later_history: Seq<Reply>,
    later: Seq<DispatchedBuildRequest>,
)
    requires
        rows::ran(
            recovering(database_url, limit, maximum_path_bytes),
            on_attempts(),
            tables,
            history,
        ),
        attempts::recover_dispatching_step(database_url, limit, maximum_path_bytes, history)
            == Step::<Seq<DispatchedBuildRequest>, ExecutionAttemptError>::Finish(Ok(recovered)),
        rows::ran(
            recovering(database_url, later_limit, maximum_path_bytes),
            on_attempts(),
            later_tables,
            later_history,
        ),
        later_tables[0] == tables.last(),
        attempts::recover_dispatching_step(
            database_url,
            later_limit,
            maximum_path_bytes,
            later_history,
        ) == Step::<Seq<DispatchedBuildRequest>, ExecutionAttemptError>::Finish(Ok(later)),
    ensures
        forall|i: int, j: int|
            0 <= i < recovered.len() && 0 <= j < later.len() ==> (
            #[trigger] recovered[i]).attempt.attempt_id@ != (
            #[trigger] later[j]).attempt.attempt_id@,
{
    recovered_attempts_are_fenced(
        database_url,
        limit,
        maximum_path_bytes,
        tables,
        history,
        recovered,
    );
    recovered_attempts_are_fenced(
        database_url,
        later_limit,
        maximum_path_bytes,
        later_tables,
        later_history,
        later,
    );
}

/// No attempts, or more than fit on a page, cannot be asked for.
pub proof fn recovery_is_bounded(
    database_url: Seq<char>,
    limit: usize,
    maximum_path_bytes: nat,
    history: Seq<Reply>,
)
    requires
        limit == 0 || limit > 256,
    ensures
        attempts::recover_dispatching_step(database_url, limit, maximum_path_bytes, history)
            == attempts::failed::<Seq<DispatchedBuildRequest>>(
            ExecutionAttemptFailure::Configuration,
        ),
{
}

/// The end of an attempt with a failure.
pub open spec fn failing(
    database_url: Seq<char>,
    attempt_id: String,
    classification: String,
    result_metadata: String,
    maximum_path_bytes: nat,
) -> spec_fn(Seq<Reply>) -> Step<CompletedBuildRequest, ExecutionAttemptError> {
    |history: Seq<Reply>|
        attempts::failure_step(
            database_url,
            attempt_id,
            classification,
            result_metadata,
            maximum_path_bytes,
            history,
        )
}

/// The end of an attempt with success.
pub open spec fn succeeding(
    database_url: Seq<char>,
    attempt_id: String,
    result_metadata: String,
    maximum_path_bytes: nat,
) -> spec_fn(Seq<Reply>) -> Step<CompletedBuildRequest, ExecutionAttemptError> {
    |history: Seq<Reply>|
        attempts::success_step(
            database_url,
            attempt_id,
            result_metadata,
            maximum_path_bytes,
            history,
        )
}

/// What an attempt fails with is in order.
pub open spec fn can_fail_with(
    database_url: Seq<char>,
    attempt_id: Seq<char>,
    classification: Seq<char>,
    result_metadata: Seq<char>,
) -> bool {
    &&& !text::is_blank(database_url)
    &&& database::is_component(attempt_id)
    &&& attempts::is_failure(classification)
    &&& crypto::json_is_object(result_metadata) == Some(true)
    &&& text::byte_length(result_metadata) <= MAX_IPC_COMPONENT_BYTES
}

/// What an attempt succeeds with is in order.
pub open spec fn can_succeed_with(
    database_url: Seq<char>,
    attempt_id: Seq<char>,
    result_metadata: Seq<char>,
) -> bool {
    &&& !text::is_blank(database_url)
    &&& database::is_component(attempt_id)
    &&& crypto::json_object_size(result_metadata) matches Some(Some(members)) && members > 0
    &&& text::byte_length(result_metadata) <= MAX_IPC_COMPONENT_BYTES
}

/// The rows say of an attempt that it ended as is given: attempt, request and outcome are recorded
/// so, and the reservation is released.
pub open spec fn is_ended(
    table: AttemptRows,
    attempt_id: Seq<char>,
    state: ExecutionAttemptState,
    queue_state: BuildQueueState,
    classification: Seq<char>,
    maximum_path_bytes: nat,
    ended: CompletedBuildRequest,
) -> bool {
    let request_id = ended.attempt.request_id@;
    &&& table.attempts.contains_key(attempt_id)
    &&& attempts::attempt_of(table.attempts[attempt_id]) == Some(ended.attempt)
    &&& ended.attempt.state == state
    &&& table.requests.contains_key(request_id)
    &&& queue::queued_of(table.requests[request_id], maximum_path_bytes) == Some(ended.request)
    &&& ended.request.queue_state == queue_state
    &&& table.reservations.contains_key(attempt_id)
    &&& attempts::reservation_of(table.reservations[attempt_id]) == Some(ended.reservation)
    &&& ended.reservation.released_at is Some
    &&& table.outcomes.contains_key(attempt_id)
    &&& outcomes::outcome_of(table.outcomes[attempt_id]) == Some(ended.outcome)
    &&& ended.outcome.classification@ == classification
}

/// What is left to end leads to the end that is returned.
proof fn rest_is_ended(
    operation: spec_fn(Seq<Reply>) -> Step<CompletedBuildRequest, ExecutionAttemptError>,
    attempt_id: String,
    request_id: String,
    phase: CapacityReservationPhase,
    attempt_state: &'static str,
    queue_state: &'static str,
    insertion: Statement,
    place: int,
    maximum_path_bytes: nat,
    tables: Seq<AttemptRows>,
    history: Seq<Reply>,
    ended: CompletedBuildRequest,
)
    requires
        rows::ran(operation, on_attempts(), tables, history),
        operation(history) == Step::<CompletedBuildRequest, ExecutionAttemptError>::Finish(
            Ok(ended),
        ),
        3 <= place <= history.len(),
        tables[place].attempts.contains_key(attempt_id@),
        tables[place].attempts[attempt_id@].request_id@ == request_id@,
        (attempt_state == "failed" && queue_state == "failed" && insertion is InsertOutcome
            && insertion->InsertOutcome_attempt_id == attempt_id) || (attempt_state == "succeeded"
            && queue_state == "completed" && insertion is InsertSuccess
            && insertion->InsertSuccess_attempt_id == attempt_id),
        forall|i: int|
            place <= i <= history.len() ==> #[trigger] operation(history.take(i))
                == attempts::completing_step(
                attempt_id,
                request_id,
                phase,
                attempt_state,
                queue_state,
                insertion,
                place,
                maximum_path_bytes,
                history.take(i),
            ),
    ensures
        is_ended(
            tables.last(),
            attempt_id@,
            if attempt_state == "failed" {
                ExecutionAttemptState::Failed
            } else {
                ExecutionAttemptState::Succeeded
            },
            if attempt_state == "failed" {
                BuildQueueState::Failed
            } else {
                BuildQueueState::Completed
            },
            match insertion {
                Statement::InsertOutcome { classification, .. } => classification@,
                _ => "succeeded"@,
            },
            maximum_path_bytes,
            ended,
        ),
{
    names_differ();
    assert(history.take(history.len() as int) =~= history);
    next_is_done(operation, on_attempts(), tables, history, place);
    next_is_done(operation, on_attempts(), tables, history, place + 1);
    let attempt = history[place + 1]->Attempt_0->0;
    assert(history[place + 1] == Reply::Attempt(Some(attempt)));
    next_is_done(operation, on_attempts(), tables, history, place + 2);
    let outcome = history[place + 2]->Outcome_0->0;
    assert(history[place + 2] == Reply::Outcome(Some(outcome)));
    next_is_done(operation, on_attempts(), tables, history, place + 3);
    let request = history[place + 3]->QueuedRequest_0->0;
    assert(history[place + 3] == Reply::QueuedRequest(Some(request)));
    next_is_done(operation, on_attempts(), tables, history, place + 4);
    end_is_reached(operation, on_attempts(), tables, history, place + 5);
}

/// Who ends an attempt with a failure finds the rows say so.
pub proof fn failed_attempt_has_ended(
    database_url: Seq<char>,
    attempt_id: String,
    classification: String,
    result_metadata: String,
    maximum_path_bytes: nat,
    tables: Seq<AttemptRows>,
    history: Seq<Reply>,
    ended: CompletedBuildRequest,
)
    requires
        rows::ran(
            failing(
                database_url,
                attempt_id,
                classification,
                result_metadata,
                maximum_path_bytes,
            ),
            on_attempts(),
            tables,
            history,
        ),
        attempts::failure_step(
            database_url,
            attempt_id,
            classification,
            result_metadata,
            maximum_path_bytes,
            history,
        ) == Step::<CompletedBuildRequest, ExecutionAttemptError>::Finish(Ok(ended)),
    ensures
        is_ended(
            tables.last(),
            attempt_id@,
            ExecutionAttemptState::Failed,
            BuildQueueState::Failed,
            classification@,
            maximum_path_bytes,
            ended,
        ),
{
    let operation = failing(
        database_url,
        attempt_id,
        classification,
        result_metadata,
        maximum_path_bytes,
    );
    next_is_done(operation, on_attempts(), tables, history, 0);
    next_is_done(operation, on_attempts(), tables, history, 1);
    next_is_done(operation, on_attempts(), tables, history, 2);
    let row = tables[1].attempts[attempt_id@];
    let current = attempts::attempt_of(row)->0;
    assert(history[1] == Reply::Attempt(Some(row)));
    rest_is_ended(
        operation,
        attempt_id,
        current.request_id,
        attempts::phase_of(current.state)->0,
        "failed",
        "failed",
        Statement::InsertOutcome { attempt_id, classification, result_metadata },
        3,
        maximum_path_bytes,
        tables,
        history,
        ended,
    );
}

/// Who ends an attempt with success finds the rows say so.
pub proof fn succeeded_attempt_has_ended(
    database_url: Seq<char>,
    attempt_id: String,
    result_metadata: String,
    maximum_path_bytes: nat,
    tables: Seq<AttemptRows>,
    history: Seq<Reply>,
    ended: CompletedBuildRequest,
)
    requires
        rows::ran(
            succeeding(database_url, attempt_id, result_metadata, maximum_path_bytes),
            on_attempts(),
            tables,
            history,
        ),
        attempts::success_step(
            database_url,
            attempt_id,
            result_metadata,
            maximum_path_bytes,
            history,
        ) == Step::<CompletedBuildRequest, ExecutionAttemptError>::Finish(Ok(ended)),
    ensures
        is_ended(
            tables.last(),
            attempt_id@,
            ExecutionAttemptState::Succeeded,
            BuildQueueState::Completed,
            "succeeded"@,
            maximum_path_bytes,
            ended,
        ),
{
    let operation = succeeding(database_url, attempt_id, result_metadata, maximum_path_bytes);
    next_is_done(operation, on_attempts(), tables, history, 0);
    next_is_done(operation, on_attempts(), tables, history, 1);
    next_is_done(operation, on_attempts(), tables, history, 2);
    next_is_done(operation, on_attempts(), tables, history, 3);
    let row = tables[1].attempts[attempt_id@];
    let current = attempts::attempt_of(row)->0;
    assert(history[1] == Reply::Attempt(Some(row)));
    reveal_strlit("succeeded");
    reveal_strlit("failed");
    assert("succeeded"@.len() == 9 && "failed"@.len() == 6);
    rest_is_ended(
        operation,
        attempt_id,
        current.request_id,
        CapacityReservationPhase::Collecting,
        "succeeded",
        "completed",
        Statement::InsertSuccess { attempt_id, result_metadata },
        4,
        maximum_path_bytes,
        tables,
        history,
        ended,
    );
}

/// An attempt that ended, whether it failed or succeeded, is refused when it is to be ended again,
/// with a failure or with success, and everything stays as it is.
pub proof fn ended_attempt_is_not_ended_again(
    attempt_id: String,
    state: ExecutionAttemptState,
    queue_state: BuildQueueState,
    classification: Seq<char>,
    maximum_path_bytes: nat,
    ended: CompletedBuildRequest,
    failure_url: Seq<char>,
    failure_classification: String,
    failure_metadata: String,
    failure: (Seq<AttemptRows>, Seq<Reply>),
    success_url: Seq<char>,
    success_metadata: String,
    success: (Seq<AttemptRows>, Seq<Reply>),
)
    requires
        state == ExecutionAttemptState::Failed || state == ExecutionAttemptState::Succeeded,
        is_ended(
            failure.0[0],
            attempt_id@,
            state,
            queue_state,
            classification,
            maximum_path_bytes,
            ended,
        ),
        can_fail_with(
            failure_url,
            attempt_id@,
            failure_classification@,
            failure_metadata@,
        ),
        rows::ran(
            failing(
                failure_url,
                attempt_id,
                failure_classification,
                failure_metadata,
                maximum_path_bytes,
            ),
            on_attempts(),
            failure.0,
            failure.1,
        ),
        success.0[0] == failure.0[0],
        can_succeed_with(success_url, attempt_id@, success_metadata@),
        rows::ran(
            succeeding(success_url, attempt_id, success_metadata, maximum_path_bytes),
            on_attempts(),
            success.0,
            success.1,
        ),
    ensures
        attempts::failure_step(
            failure_url,
            attempt_id,
            failure_classification,
            failure_metadata,
            maximum_path_bytes,
            failure.1,
        ) == attempts::failed::<CompletedBuildRequest>(ExecutionAttemptFailure::InvalidState),
        failure.0.last() == failure.0[0],
        attempts::success_step(
            success_url,
            attempt_id,
            success_metadata,
            maximum_path_bytes,
            success.1,
        ) == attempts::failed::<CompletedBuildRequest>(ExecutionAttemptFailure::InvalidState),
        success.0.last() == success.0[0],
{
    let failing_again = failing(
        failure_url,
        attempt_id,
        failure_classification,
        failure_metadata,
        maximum_path_bytes,
    );
    next_is_done(failing_again, on_attempts(), failure.0, failure.1, 0);
    next_is_done(failing_again, on_attempts(), failure.0, failure.1, 1);
    end_is_reached(failing_again, on_attempts(), failure.0, failure.1, 2);
    let succeeding_again = succeeding(
        success_url,
        attempt_id,
        success_metadata,
        maximum_path_bytes,
    );
    next_is_done(succeeding_again, on_attempts(), success.0, success.1, 0);
    next_is_done(succeeding_again, on_attempts(), success.0, success.1, 1);
    end_is_reached(succeeding_again, on_attempts(), success.0, success.1, 2);
}

} // verus!
