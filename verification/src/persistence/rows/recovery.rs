//! Recovery on the rows: what the backend has is found again after a restart, with its request and
//! its reservation.

use crate::persistence::attempts::{
    self, CapacityReservationPhase, DispatchedBuildRequest, ExecutionAttemptError,
    RecoveredCollectingBuildRequest,
};
use crate::persistence::database::{
    AttemptRow, LocalExecutionRow, LocalResultRow, Moment, Reply, Statement, Step,
};
use crate::persistence::executor;
use crate::persistence::rows::attempts::{is_in_phase, AttemptRows};
use crate::persistence::rows::{self, end_is_reached, next_is_done};
use crate::text;
use vstd::prelude::*;

verus! {

/// Attempts with what belongs to them, and the executions of the local backend with their results,
/// each under the name of its execution.
pub struct RecoveryRows {
    pub held: AttemptRows,
    pub executions: Map<Seq<char>, LocalExecutionRow>,
    pub results: Map<Seq<char>, LocalResultRow>,
}

/// The name of a phase, which those of its attempt, its request and its reservation are.
pub open spec fn name_of(phase: CapacityReservationPhase) -> Seq<char> {
    match phase {
        CapacityReservationPhase::Dispatching => "dispatching"@,
        CapacityReservationPhase::BackendPending => "backend-pending"@,
        CapacityReservationPhase::Running => "running"@,
        CapacityReservationPhase::Collecting => "collecting"@,
    }
}

/// The moment at which an attempt came into its phase.
pub open spec fn moment_in(row: AttemptRow, phase: CapacityReservationPhase) -> Option<Moment> {
    match phase {
        CapacityReservationPhase::Dispatching => Some(row.created_at),
        CapacityReservationPhase::BackendPending => row.submitted_at,
        CapacityReservationPhase::Running => row.started_at,
        CapacityReservationPhase::Collecting => row.collecting_at,
    }
}

/// The local backend is with an execution where an attempt in a phase expects it to be.
pub open spec fn backend_is_there(
    row: LocalExecutionRow,
    phase: CapacityReservationPhase,
) -> bool {
    match phase {
        CapacityReservationPhase::BackendPending => row.state@ == "accepted"@,
        CapacityReservationPhase::Running => row.state@ == "running"@ && row.started_at is Some
            && row.completed_at is None,
        CapacityReservationPhase::Collecting => (row.state@ == "succeeded"@ || row.state@
            == "failed"@ || row.state@ == "cancelled"@) && row.started_at is Some
            && row.completed_at is Some,
        CapacityReservationPhase::Dispatching => false,
    }
}

/// An attempt is to be recovered in a phase: it is in it, was not fenced, and the local backend has
/// its execution.
pub open spec fn is_due(table: RecoveryRows, id: Seq<char>, phase: CapacityReservationPhase) -> bool {
    let row = table.held.attempts[id];
    let execution = row.backend_execution_id->0@;
    &&& table.held.attempts.contains_key(id)
    &&& row.state@ == name_of(phase)
    &&& row.backend@ == "local"@
    &&& row.fenced_at is None
    &&& row.backend_execution_id is Some
    &&& moment_in(row, phase) is Some
    &&& table.executions.contains_key(execution)
    &&& table.executions[execution].idempotency_key@ == row.idempotency_key@
    &&& backend_is_there(table.executions[execution], phase)
    &&& phase == CapacityReservationPhase::Collecting ==> table.results.contains_key(execution)
}

/// Rows are attempts that are to be recovered, in the order in which they came into their phase and
/// at most so many; those that are left out came no earlier.
pub open spec fn are_due(
    listed: Seq<AttemptRow>,
    table: RecoveryRows,
    phase: CapacityReservationPhase,
    maximum_rows: i64,
) -> bool {
    &&& listed.len() <= maximum_rows
    &&& forall|i: int|
        0 <= i < listed.len() ==> is_due(table, (#[trigger] listed[i]).attempt_id@, phase)
            && table.held.attempts[listed[i].attempt_id@] == listed[i]
    &&& forall|i: int, j: int|
        0 <= i < j < listed.len() ==> moment_in(#[trigger] listed[i], phase)->0 <= moment_in(
            #[trigger] listed[j],
            phase,
        )->0 && listed[i].attempt_id@ != listed[j].attempt_id@
    &&& forall|id: Seq<char>| #[trigger]
        is_due(table, id, phase) ==> is_among(listed, id) || listed.len() == maximum_rows
}

/// An attempt is among rows.
pub open spec fn is_among(listed: Seq<AttemptRow>, id: Seq<char>) -> bool {
    exists|i: int| 0 <= i < listed.len() && (#[trigger] listed[i]).attempt_id@ == id
}

/// What statements do that look for attempts to recover. They change nothing.
pub open spec fn recovery_changes(
    before: RecoveryRows,
    statement: Statement,
    reply: Reply,
    after: RecoveryRows,
) -> bool {
    match statement {
        Statement::Begin | Statement::Commit => reply is Done && after == before,
        Statement::LockPendingAttempts { maximum_rows } => after == before && match reply {
            Reply::Attempts(listed) => are_due(
                listed@,
                before,
                CapacityReservationPhase::BackendPending,
                maximum_rows,
            ),
            _ => false,
        },
        Statement::LockRunningAttempts { maximum_rows } => after == before && match reply {
            Reply::Attempts(listed) => are_due(
                listed@,
                before,
                CapacityReservationPhase::Running,
                maximum_rows,
            ),
            _ => false,
        },
        Statement::LockCollectingAttempts { maximum_rows } => after == before && match reply {
            Reply::CollectingAttempts(listed) => {
                &&& are_due(
                    attempts_in(listed@),
                    before,
                    CapacityReservationPhase::Collecting,
                    maximum_rows,
                )
                &&& forall|i: int|
                    0 <= i < listed@.len() ==> (#[trigger] listed@[i]).1
                        == before.results[listed@[i].0.backend_execution_id->0@]
            },
            _ => false,
        },
        Statement::LockQueuedRequestIn { request_id, queue_state } => after == before
            && if before.held.requests.contains_key(request_id@)
            && before.held.requests[request_id@].queue_state@ == queue_state@ {
            reply == Reply::QueuedRequest(Some(before.held.requests[request_id@]))
        } else {
            reply == Reply::QueuedRequest(None)
        },
        Statement::LockReservation { attempt_id, phase } => after == before
            && if before.held.reservations.contains_key(attempt_id@)
            && before.held.reservations[attempt_id@].phase@ == phase@
            && before.held.reservations[attempt_id@].released_at is None {
            reply == Reply::Reservation(Some(before.held.reservations[attempt_id@]))
        } else {
            reply == Reply::Reservation(None)
        },
        _ => true,
    }
}

/// The attempts of rows that come with results.
pub open spec fn attempts_in(listed: Seq<(AttemptRow, LocalResultRow)>) -> Seq<AttemptRow> {
    listed.map_values(|row: (AttemptRow, LocalResultRow)| row.0)
}

/// The model of what is recovered.
pub open spec fn on_recovery() -> spec_fn(RecoveryRows, Statement, Reply, RecoveryRows) -> bool {
    |before: RecoveryRows, statement: Statement, reply: Reply, after: RecoveryRows|
        recovery_changes(before, statement, reply, after)
}

/// The recovery of attempts that the backend accepted and did not start.
pub open spec fn recovering_pending(
    database_url: Seq<char>,
    limit: usize,
    maximum_path_bytes: nat,
) -> spec_fn(Seq<Reply>) -> Step<Seq<DispatchedBuildRequest>, ExecutionAttemptError> {
    |history: Seq<Reply>|
        attempts::recover_backend_pending_step(database_url, limit, maximum_path_bytes, history)
}

/// The recovery of attempts that the backend runs.
pub open spec fn recovering_running(
    database_url: Seq<char>,
    limit: usize,
    maximum_path_bytes: nat,
) -> spec_fn(Seq<Reply>) -> Step<Seq<DispatchedBuildRequest>, ExecutionAttemptError> {
    |history: Seq<Reply>|
        attempts::recover_running_step(database_url, limit, maximum_path_bytes, history)
}

/// The recovery of attempts whose outputs were being collected.
pub open spec fn recovering_collecting(
    database_url: Seq<char>,
    limit: usize,
    maximum_path_bytes: nat,
) -> spec_fn(Seq<Reply>) -> Step<Seq<RecoveredCollectingBuildRequest>, ExecutionAttemptError> {
    |history: Seq<Reply>|
        attempts::recover_collecting_step(database_url, limit, maximum_path_bytes, history)
}

/// Every attempt that is to be recovered in a phase is in it together with its request and its
/// reservation.
pub open spec fn phases_agree(
    table: RecoveryRows,
    phase: CapacityReservationPhase,
    maximum_path_bytes: nat,
) -> bool {
    forall|id: Seq<char>| #[trigger]
        is_due(table, id, phase) ==> exists|found: DispatchedBuildRequest|
            is_in_phase(table.held, id, phase, maximum_path_bytes, found)
}

/// What is recovered are attempts that were to be, each once, with the request and the reservation
/// that the rows have of it, in the order in which they came into their phase and at most as many
/// as asked for. One is left out only where there are more than that.
pub open spec fn are_recovered(
    recovered: Seq<DispatchedBuildRequest>,
    table: RecoveryRows,
    phase: CapacityReservationPhase,
    limit: usize,
    maximum_path_bytes: nat,
) -> bool {
    &&& recovered.len() <= limit
    &&& forall|i: int|
        0 <= i < recovered.len() ==> {
            let id = (#[trigger] recovered[i]).attempt.attempt_id@;
            &&& is_due(table, id, phase)
            &&& is_in_phase(table.held, id, phase, maximum_path_bytes, recovered[i])
        }
    &&& forall|i: int, j: int|
        0 <= i < j < recovered.len() ==> {
            let one = (#[trigger] recovered[i]).attempt.attempt_id@;
            let other = (#[trigger] recovered[j]).attempt.attempt_id@;
            &&& one != other
            &&& moment_in(table.held.attempts[one], phase)->0 <= moment_in(
                table.held.attempts[other],
                phase,
            )->0
        }
    &&& forall|id: Seq<char>| #[trigger]
        is_due(table, id, phase) ==> recovered.len() == limit || is_recovered(recovered, id)
}

/// An attempt is among those recovered.
pub open spec fn is_recovered(recovered: Seq<DispatchedBuildRequest>, id: Seq<char>) -> bool {
    exists|i: int| 0 <= i < recovered.len() && (#[trigger] recovered[i]).attempt.attempt_id@ == id
}

/// The names of a phase are those of the states of attempt, request and reservation in it.
proof fn phase_is_named(
    table: AttemptRows,
    id: Seq<char>,
    phase: CapacityReservationPhase,
    maximum_path_bytes: nat,
    found: DispatchedBuildRequest,
)
    requires
        is_in_phase(table, id, phase, maximum_path_bytes, found),
    ensures
        table.requests[found.attempt.request_id@].queue_state@ == phase.spec_name()@,
        table.reservations[id].phase@ == phase.spec_name()@,
{
}

/// What is read of one attempt is what the rows have of it.
proof fn one_is_held(
    operation: spec_fn(Seq<Reply>) -> Step<Seq<DispatchedBuildRequest>, ExecutionAttemptError>,
    table: RecoveryRows,
    tables: Seq<RecoveryRows>,
    history: Seq<Reply>,
    listed: Seq<AttemptRow>,
    phase: CapacityReservationPhase,
    next: nat,
    place: int,
    recovered: Seq<DispatchedBuildRequest>,
    maximum_path_bytes: nat,
    found: DispatchedBuildRequest,
)
    requires
        rows::ran(operation, on_recovery(), tables, history),
        2 <= place <= history.len(),
        tables[place] == table,
        next < listed.len(),
        is_in_phase(
            table.held,
            listed[next as int].attempt_id@,
            phase,
            maximum_path_bytes,
            found,
        ),
        table.held.attempts[listed[next as int].attempt_id@] == listed[next as int],
        forall|i: int|
            place <= i <= history.len() ==> #[trigger] operation(history.take(i))
                == attempts::holding_step(
                listed,
                phase,
                next,
                place,
                recovered,
                maximum_path_bytes,
                history.take(i),
            ),
    ensures
        place + 2 <= history.len(),
        tables[place + 2] == table,
        forall|i: int|
            place + 2 <= i <= history.len() ==> #[trigger] operation(history.take(i))
                == attempts::holding_step(
                listed,
                phase,
                next + 1,
                place + 2,
                recovered.push(found),
                maximum_path_bytes,
                history.take(i),
            ),
{
    phase_is_named(
        table.held,
        listed[next as int].attempt_id@,
        phase,
        maximum_path_bytes,
        found,
    );
    next_is_done(operation, on_recovery(), tables, history, place);
    next_is_done(operation, on_recovery(), tables, history, place + 1);
    assert forall|i: int| place + 2 <= i <= history.len() implies #[trigger] operation(
        history.take(i),
    ) == attempts::holding_step(
        listed,
        phase,
        next + 1,
        place + 2,
        recovered.push(found),
        maximum_path_bytes,
        history.take(i),
    ) by {
        let begun = history.take(i);
        assert(begun[place] == history[place]);
        assert(begun[place + 1] == history[place + 1]);
    }
}

/// The attempts that were found so far, as the rows have them.
pub open spec fn are_found(
    recovered: Seq<DispatchedBuildRequest>,
    listed: Seq<AttemptRow>,
    table: RecoveryRows,
    phase: CapacityReservationPhase,
    maximum_path_bytes: nat,
) -> bool {
    &&& recovered.len() <= listed.len()
    &&& forall|i: int|
        0 <= i < recovered.len() ==> is_in_phase(
            table.held,
            listed[i].attempt_id@,
            phase,
            maximum_path_bytes,
            #[trigger] recovered[i],
        ) && recovered[i].attempt.attempt_id@ == listed[i].attempt_id@
}

proof fn rest_is_held(
    operation: spec_fn(Seq<Reply>) -> Step<Seq<DispatchedBuildRequest>, ExecutionAttemptError>,
    table: RecoveryRows,
    tables: Seq<RecoveryRows>,
    history: Seq<Reply>,
    listed: Seq<AttemptRow>,
    phase: CapacityReservationPhase,
    place: int,
    recovered: Seq<DispatchedBuildRequest>,
    maximum_path_bytes: nat,
    maximum_rows: i64,
)
    requires
        rows::ran(operation, on_recovery(), tables, history),
        2 <= place <= history.len(),
        tables[place] == table,
        are_due(listed, table, phase, maximum_rows),
        phases_agree(table, phase, maximum_path_bytes),
        are_found(recovered, listed, table, phase, maximum_path_bytes),
        forall|i: int|
            place <= i <= history.len() ==> #[trigger] operation(history.take(i))
                == attempts::holding_step(
                listed,
                phase,
                recovered.len(),
                place,
                recovered,
                maximum_path_bytes,
                history.take(i),
            ),
    ensures
        operation(history) matches Step::Finish(Ok(all)) && all.len() == listed.len() && are_found(
            all,
            listed,
            table,
            phase,
            maximum_path_bytes,
        ),
        tables.last() == table,
    decreases listed.len() - recovered.len(),
{
    let next = recovered.len();
    assert(history.take(history.len() as int) =~= history);
    if next < listed.len() {
        let id = listed[next as int].attempt_id@;
        assert(is_due(table, id, phase));
        let found = choose|found: DispatchedBuildRequest|
            is_in_phase(table.held, id, phase, maximum_path_bytes, found);
        one_is_held(
            operation,
            table,
            tables,
            history,
            listed,
            phase,
            next,
            place,
            recovered,
            maximum_path_bytes,
            found,
        );
        rest_is_held(
            operation,
            table,
            tables,
            history,
            listed,
            phase,
            place + 2,
            recovered.push(found),
            maximum_path_bytes,
            maximum_rows,
        );
    } else {
        next_is_done(operation, on_recovery(), tables, history, place);
        end_is_reached(operation, on_recovery(), tables, history, place + 1);
    }
}

/// What was found for all that was listed is what was to be recovered.
proof fn found_are_recovered(
    recovered: Seq<DispatchedBuildRequest>,
    listed: Seq<AttemptRow>,
    table: RecoveryRows,
    phase: CapacityReservationPhase,
    limit: usize,
    maximum_path_bytes: nat,
)
    requires
        limit <= 256,
        are_due(listed, table, phase, limit as i64),
        are_found(recovered, listed, table, phase, maximum_path_bytes),
        recovered.len() == listed.len(),
    ensures
        are_recovered(recovered, table, phase, limit, maximum_path_bytes),
{
    assert forall|i: int, j: int| 0 <= i < j < recovered.len() implies {
        let one = (#[trigger] recovered[i]).attempt.attempt_id@;
        let other = (#[trigger] recovered[j]).attempt.attempt_id@;
        &&& one != other
        &&& moment_in(table.held.attempts[one], phase)->0 <= moment_in(
            table.held.attempts[other],
            phase,
        )->0
    } by {
        assert(listed[i].attempt_id@ != listed[j].attempt_id@);
    }
    assert forall|id: Seq<char>| #[trigger] is_due(table, id, phase) implies recovered.len()
        == limit || is_recovered(recovered, id) by {
        if is_among(listed, id) {
            let i = choose|i: int| 0 <= i < listed.len() && (#[trigger] listed[i]).attempt_id@ == id;
            assert(recovered[i].attempt.attempt_id@ == id);
        }
    }
}

/// After a restart, attempts that the local backend accepted and did not start are found again, each with its
/// request and its reservation, and nothing changes.
pub proof fn pending_attempts_are_recovered(
    database_url: Seq<char>,
    limit: usize,
    maximum_path_bytes: nat,
    tables: Seq<RecoveryRows>,
    history: Seq<Reply>,
)
    requires
        !text::is_blank(database_url),
        1 <= limit <= 256,
        phases_agree(tables[0], CapacityReservationPhase::BackendPending, maximum_path_bytes),
        rows::ran(
            recovering_pending(database_url, limit, maximum_path_bytes),
            on_recovery(),
            tables,
            history,
        ),
    ensures
        attempts::recover_backend_pending_step(
            database_url,
            limit,
            maximum_path_bytes,
            history,
        ) matches Step::Finish(Ok(recovered)) && are_recovered(
            recovered,
            tables[0],
            CapacityReservationPhase::BackendPending,
            limit,
            maximum_path_bytes,
        ),
        tables.last() == tables[0],
{
    let operation = recovering_pending(database_url, limit, maximum_path_bytes);
    next_is_done(operation, on_recovery(), tables, history, 0);
    next_is_done(operation, on_recovery(), tables, history, 1);
    let listed = history[1]->Attempts_0@;
    rest_is_held(
        operation,
        tables[0],
        tables,
        history,
        listed,
        CapacityReservationPhase::BackendPending,
        2,
        Seq::empty(),
        maximum_path_bytes,
        limit as i64,
    );
    found_are_recovered(
        operation(history)->Finish_0->Ok_0,
        listed,
        tables[0],
        CapacityReservationPhase::BackendPending,
        limit,
        maximum_path_bytes,
    );
}

/// After a restart, attempts that the local backend runs are found again, each with its
/// request and its reservation, and nothing changes.
pub proof fn running_attempts_are_recovered(
    database_url: Seq<char>,
    limit: usize,
    maximum_path_bytes: nat,
    tables: Seq<RecoveryRows>,
    history: Seq<Reply>,
)
    requires
        !text::is_blank(database_url),
        1 <= limit <= 256,
        phases_agree(tables[0], CapacityReservationPhase::Running, maximum_path_bytes),
        rows::ran(
            recovering_running(database_url, limit, maximum_path_bytes),
            on_recovery(),
            tables,
            history,
        ),
    ensures
        attempts::recover_running_step(
            database_url,
            limit,
            maximum_path_bytes,
            history,
        ) matches Step::Finish(Ok(recovered)) && are_recovered(
            recovered,
            tables[0],
            CapacityReservationPhase::Running,
            limit,
            maximum_path_bytes,
        ),
        tables.last() == tables[0],
{
    let operation = recovering_running(database_url, limit, maximum_path_bytes);
    next_is_done(operation, on_recovery(), tables, history, 0);
    next_is_done(operation, on_recovery(), tables, history, 1);
    let listed = history[1]->Attempts_0@;
    rest_is_held(
        operation,
        tables[0],
        tables,
        history,
        listed,
        CapacityReservationPhase::Running,
        2,
        Seq::empty(),
        maximum_path_bytes,
        limit as i64,
    );
    found_are_recovered(
        operation(history)->Finish_0->Ok_0,
        listed,
        tables[0],
        CapacityReservationPhase::Running,
        limit,
        maximum_path_bytes,
    );
}

/// What is recovered without the results.
pub open spec fn executions_of(recovered: Seq<RecoveredCollectingBuildRequest>) -> Seq<
    DispatchedBuildRequest,
> {
    recovered.map_values(|one: RecoveredCollectingBuildRequest| one.execution)
}

/// Every result is the one that the rows have of the execution.
pub open spec fn have_results(
    recovered: Seq<RecoveredCollectingBuildRequest>,
    table: RecoveryRows,
) -> bool {
    forall|i: int|
        0 <= i < recovered.len() ==> {
            let execution = (
            #[trigger] recovered[i]).execution.attempt.backend_execution_id->0@;
            &&& table.results.contains_key(execution)
            &&& executor::result_of(table.results[execution]) == Ok::<
                executor::LocalBackendExecutionResult,
                executor::LocalBackendExecutionFailure,
            >(recovered[i].backend_result)
        }
}

proof fn rest_is_collected(
    operation: spec_fn(Seq<Reply>) -> Step<
        Seq<RecoveredCollectingBuildRequest>,
        ExecutionAttemptError,
    >,
    table: RecoveryRows,
    tables: Seq<RecoveryRows>,
    history: Seq<Reply>,
    listed: Seq<(AttemptRow, LocalResultRow)>,
    place: int,
    recovered: Seq<RecoveredCollectingBuildRequest>,
    maximum_path_bytes: nat,
    maximum_rows: i64,
)
    requires
        rows::ran(operation, on_recovery(), tables, history),
        2 <= place <= history.len(),
        tables[place] == table,
        are_due(
            attempts_in(listed),
            table,
            CapacityReservationPhase::Collecting,
            maximum_rows,
        ),
        forall|i: int|
            0 <= i < listed.len() ==> (#[trigger] listed[i]).1
                == table.results[listed[i].0.backend_execution_id->0@],
        phases_agree(table, CapacityReservationPhase::Collecting, maximum_path_bytes),
        results_are_readable(table),
        are_found(
            executions_of(recovered),
            attempts_in(listed),
            table,
            CapacityReservationPhase::Collecting,
            maximum_path_bytes,
        ),
        have_results(recovered, table),
        forall|i: int|
            place <= i <= history.len() ==> #[trigger] operation(history.take(i))
                == attempts::collecting_step(
                listed,
                recovered.len(),
                place,
                recovered,
                maximum_path_bytes,
                history.take(i),
            ),
    ensures
        operation(history) matches Step::Finish(Ok(all)) && all.len() == listed.len() && are_found(
            executions_of(all),
            attempts_in(listed),
            table,
            CapacityReservationPhase::Collecting,
            maximum_path_bytes,
        ) && have_results(all, table),
        tables.last() == table,
    decreases listed.len() - recovered.len(),
{
    let next = recovered.len();
    let phase = CapacityReservationPhase::Collecting;
    assert(history.take(history.len() as int) =~= history);
    if next < listed.len() {
        let row = listed[next as int].0;
        let id = row.attempt_id@;
        assert(attempts_in(listed)[next as int] == row);
        assert(is_due(table, id, phase));
        let found = choose|found: DispatchedBuildRequest|
            is_in_phase(table.held, id, phase, maximum_path_bytes, found);
        phase_is_named(table.held, id, phase, maximum_path_bytes, found);
        next_is_done(operation, on_recovery(), tables, history, place);
        next_is_done(operation, on_recovery(), tables, history, place + 1);
        assert(executor::result_of(listed[next as int].1) is Ok);
        let one = RecoveredCollectingBuildRequest {
            execution: found,
            backend_result: executor::result_of(listed[next as int].1)->Ok_0,
        };
        let longer = recovered.push(one);
        assert(executions_of(longer) =~= executions_of(recovered).push(found));
        assert forall|i: int| place + 2 <= i <= history.len() implies #[trigger] operation(
            history.take(i),
        ) == attempts::collecting_step(
            listed,
            next + 1,
            place + 2,
            longer,
            maximum_path_bytes,
            history.take(i),
        ) by {
            let begun = history.take(i);
            assert(begun[place] == history[place]);
            assert(begun[place + 1] == history[place + 1]);
        }
        rest_is_collected(
            operation,
            table,
            tables,
            history,
            listed,
            place + 2,
            longer,
            maximum_path_bytes,
            maximum_rows,
        );
    } else {
        next_is_done(operation, on_recovery(), tables, history, place);
        end_is_reached(operation, on_recovery(), tables, history, place + 1);
    }
}

/// Every result can be read.
pub open spec fn results_are_readable(table: RecoveryRows) -> bool {
    forall|execution: Seq<char>| #[trigger]
        table.results.contains_key(execution) ==> executor::result_of(table.results[execution])
            is Ok
}

/// After a restart, attempts whose outputs were being collected are found again, each with its
/// request, its reservation and the result that the backend recorded, and nothing changes.
pub proof fn collecting_attempts_are_recovered(
    database_url: Seq<char>,
    limit: usize,
    maximum_path_bytes: nat,
    tables: Seq<RecoveryRows>,
    history: Seq<Reply>,
)
    requires
        !text::is_blank(database_url),
        1 <= limit <= 256,
        phases_agree(tables[0], CapacityReservationPhase::Collecting, maximum_path_bytes),
        results_are_readable(tables[0]),
        rows::ran(
            recovering_collecting(database_url, limit, maximum_path_bytes),
            on_recovery(),
            tables,
            history,
        ),
    ensures
        attempts::recover_collecting_step(
            database_url,
            limit,
            maximum_path_bytes,
            history,
        ) matches Step::Finish(Ok(recovered)) && are_recovered(
            executions_of(recovered),
            tables[0],
            CapacityReservationPhase::Collecting,
            limit,
            maximum_path_bytes,
        ) && have_results(recovered, tables[0]),
        tables.last() == tables[0],
{
    let operation = recovering_collecting(database_url, limit, maximum_path_bytes);
    next_is_done(operation, on_recovery(), tables, history, 0);
    next_is_done(operation, on_recovery(), tables, history, 1);
    let listed = history[1]->CollectingAttempts_0@;
    let none = Seq::<RecoveredCollectingBuildRequest>::empty();
    assert(executions_of(none) =~= Seq::<DispatchedBuildRequest>::empty());
    rest_is_collected(
        operation,
        tables[0],
        tables,
        history,
        listed,
        2,
        none,
        maximum_path_bytes,
        limit as i64,
    );
    found_are_recovered(
        executions_of(operation(history)->Finish_0->Ok_0),
        attempts_in(listed),
        tables[0],
        CapacityReservationPhase::Collecting,
        limit,
        maximum_path_bytes,
    );
}

} // verus!
