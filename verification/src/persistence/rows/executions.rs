//! The registry of executions on its rows: what is registered and what has ended stays so.

use crate::crypto;
use crate::persistence::database::{
    self, DatabaseFault, Digest, LocalExecutionRow, LocalResultRow, Reply, Statement, Step,
};
use crate::persistence::executor::{
    self, CompletedLocalBackendExecution, LocalBackendExecution, LocalBackendExecutionError,
    LocalBackendExecutionFailure, LocalBackendExecutionResult, LocalBackendExecutionState,
};
use crate::persistence::rows::{self, end_is_reached, next_is_done};
use crate::text;
use vstd::prelude::*;

verus! {

/// The executions and their results, each under the name of its execution.
pub struct LocalRows {
    pub executions: Map<Seq<char>, LocalExecutionRow>,
    pub results: Map<Seq<char>, LocalResultRow>,
}

impl LocalRows {
    /// Every row is under its name, and no two executions have the same key.
    pub open spec fn well_formed(self) -> bool {
        &&& forall|id: Seq<char>| #[trigger]
            self.executions.contains_key(id) ==> self.executions[id].backend_execution_id@ == id
        &&& forall|id: Seq<char>, other: Seq<char>| #[trigger]
            self.executions.contains_key(id) && #[trigger] self.executions.contains_key(other)
                && self.executions[id].idempotency_key@ == self.executions[other].idempotency_key@
                ==> id == other
    }

    /// The execution under a name has that name or that key.
    pub open spec fn has(self, found: Seq<char>, id: Seq<char>, key: Seq<char>) -> bool {
        self.executions.contains_key(found) && (found == id
            || self.executions[found].idempotency_key@ == key)
    }

    /// No execution has that name or that key.
    pub open spec fn lacks(self, id: Seq<char>, key: Seq<char>) -> bool {
        forall|found: Seq<char>| !#[trigger] self.has(found, id, key)
    }

    /// The execution under a name is the only one with that name or that key.
    pub open spec fn has_only(self, found: Seq<char>, id: Seq<char>, key: Seq<char>) -> bool {
        self.has(found, id, key) && forall|other: Seq<char>| #[trigger]
            self.has(other, id, key) ==> other == found
    }
}

/// A reply has the row under a name, if there is one.
pub open spec fn has_execution(reply: Reply, executions: Map<Seq<char>, LocalExecutionRow>, id: Seq<
    char,
>) -> bool {
    if executions.contains_key(id) {
        reply == Reply::LocalExecution(Some(executions[id]))
    } else {
        reply == Reply::LocalExecution(None)
    }
}

/// A row is another one with its state changed and what belongs to it.
pub open spec fn is_moved(
    row: LocalExecutionRow,
    before: LocalExecutionRow,
    state: Seq<char>,
) -> bool {
    &&& row.backend_execution_id@ == before.backend_execution_id@
    &&& row.idempotency_key@ == before.idempotency_key@
    &&& row.specification_digest@ == before.specification_digest@
    &&& row.state@ == state
    &&& row.created_at == before.created_at
}

/// What statements do to the executions and their results. Metadata is kept as JSON: what is read
/// has the value of what was written.
pub open spec fn executions_change(
    before: LocalRows,
    statement: Statement,
    reply: Reply,
    after: LocalRows,
) -> bool {
    match statement {
        Statement::Begin | Statement::Commit => reply is Done && after == before,
        Statement::LockLocalExecutionByKeys { backend_execution_id: id, idempotency_key: key } => {
            &&& after == before
            &&& match reply {
                Reply::LocalExecution(None) => before.lacks(id@, key@),
                Reply::LocalExecution(Some(row)) => exists|found: Seq<char>| #[trigger]
                    before.has_only(found, id@, key@) && row == before.executions[found],
                Reply::Failed(_) => !before.lacks(id@, key@) && forall|found: Seq<char>|
                    !#[trigger] before.has_only(found, id@, key@),
                _ => false,
            }
        },
        Statement::RegisterLocalExecution {
            backend_execution_id: id,
            idempotency_key: key,
            specification_digest,
        } => if !before.lacks(id@, key@) {
            reply == Reply::Failed(DatabaseFault::UniqueViolation) && after == before
        } else {
            match reply {
                Reply::LocalExecution(Some(row)) => {
                    &&& row.backend_execution_id@ == id@
                    &&& row.idempotency_key@ == key@
                    &&& row.specification_digest@ == specification_digest@
                    &&& row.state@ == "accepted"@
                    &&& row.started_at is None
                    &&& row.completed_at is None
                    &&& after.executions == before.executions.insert(id@, row)
                    &&& after.results == before.results
                },
                _ => false,
            }
        },
        Statement::LockLocalExecution { backend_execution_id: id }
        | Statement::ReadLocalExecution { backend_execution_id: id } => after == before
            && has_execution(reply, before.executions, id@),
        Statement::ReadLocalResult { backend_execution_id: id } => after == before
            && if before.results.contains_key(id@) {
            reply == Reply::LocalResult(Some(before.results[id@]))
        } else {
            reply == Reply::LocalResult(None)
        },
        Statement::InsertLocalResult { backend_execution_id: id, classification, result_metadata } =>
        if before.results.contains_key(id@) {
            reply == Reply::Failed(DatabaseFault::UniqueViolation) && after == before
        } else {
            match reply {
                Reply::LocalResult(Some(row)) => {
                    &&& row.backend_execution_id@ == id@
                    &&& row.classification@ == classification@
                    &&& crypto::json_equal(row.result_metadata@, result_metadata@)
                    &&& after.results == before.results.insert(id@, row)
                    &&& after.executions == before.executions
                },
                _ => false,
            }
        },
        Statement::StartAcceptedLocalExecution { backend_execution_id: id } =>
        if before.executions.contains_key(id@) && before.executions[id@].state@ == "accepted"@ {
            match reply {
                Reply::LocalExecution(Some(row)) => {
                    &&& is_moved(row, before.executions[id@], "running"@)
                    &&& row.started_at is Some
                    &&& row.completed_at is None
                    &&& after.executions == before.executions.insert(id@, row)
                    &&& after.results == before.results
                },
                _ => false,
            }
        } else {
            reply == Reply::LocalExecution(None) && after == before
        },
        Statement::FinishRunningLocalExecution { backend_execution_id: id, state } =>
        if before.executions.contains_key(id@) && before.executions[id@].state@ == "running"@ {
            match reply {
                Reply::LocalExecution(Some(row)) => {
                    &&& is_moved(row, before.executions[id@], state@)
                    &&& row.started_at == before.executions[id@].started_at
                    &&& row.completed_at is Some
                    &&& after.executions == before.executions.insert(id@, row)
                    &&& after.results == before.results
                },
                _ => false,
            }
        } else {
            reply == Reply::LocalExecution(None) && after == before
        },
        _ => true,
    }
}

/// The model of the executions and their results.
pub open spec fn on_executions() -> spec_fn(LocalRows, Statement, Reply, LocalRows) -> bool {
    |before: LocalRows, statement: Statement, reply: Reply, after: LocalRows|
        executions_change(before, statement, reply, after)
}

/// The registration of an execution.
pub open spec fn registering(
    database_url: Seq<char>,
    backend_execution_id: String,
    idempotency_key: String,
    specification_digest: Digest,
) -> spec_fn(Seq<Reply>) -> Step<LocalBackendExecution, LocalBackendExecutionError> {
    |history: Seq<Reply>|
        executor::register_step(
            database_url,
            backend_execution_id,
            idempotency_key,
            specification_digest,
            history,
        )
}

/// The end of an execution.
pub open spec fn completing(
    database_url: Seq<char>,
    backend_execution_id: String,
    terminal_state: LocalBackendExecutionState,
    classification: String,
    result_metadata: String,
) -> spec_fn(Seq<Reply>) -> Step<CompletedLocalBackendExecution, LocalBackendExecutionError> {
    |history: Seq<Reply>|
        executor::complete_step(
            database_url,
            backend_execution_id,
            terminal_state,
            classification,
            result_metadata,
            history,
        )
}

/// What a registration that ends well leaves: the execution is there as it was returned.
proof fn registered(
    database_url: Seq<char>,
    id: String,
    key: String,
    specification_digest: Digest,
    tables: Seq<LocalRows>,
    history: Seq<Reply>,
    execution: LocalBackendExecution,
)
    requires
        tables[0].well_formed(),
        rows::ran(
            registering(database_url, id, key, specification_digest),
            on_executions(),
            tables,
            history,
        ),
        executor::register_step(database_url, id, key, specification_digest, history) == Step::<
            LocalBackendExecution,
            LocalBackendExecutionError,
        >::Finish(Ok(execution)),
    ensures
        executor::identity_valid(database_url, id@, key@),
        tables.last().well_formed(),
        tables.last().executions.contains_key(id@),
        executor::execution_of(tables.last().executions[id@]) == Ok::<
            LocalBackendExecution,
            LocalBackendExecutionFailure,
        >(execution),
        execution.backend_execution_id@ == id@,
        execution.idempotency_key@ == key@,
        execution.specification_digest == specification_digest,
{
    let operation = registering(database_url, id, key, specification_digest);
    next_is_done(operation, on_executions(), tables, history, 0);
    next_is_done(operation, on_executions(), tables, history, 1);
    match history[1] {
        Reply::LocalExecution(Some(row)) => {
            next_is_done(operation, on_executions(), tables, history, 2);
            end_is_reached(operation, on_executions(), tables, history, 3);
            let found = choose|found: Seq<char>| #[trigger]
                tables[1].has_only(found, id@, key@) && row == tables[1].executions[found];
            assert(tables[1].has(found, id@, key@));
        },
        Reply::LocalExecution(None) => {
            next_is_done(operation, on_executions(), tables, history, 2);
            assert(history.take(3)[1] == history[1]);
            next_is_done(operation, on_executions(), tables, history, 3);
            end_is_reached(operation, on_executions(), tables, history, 4);
            let row = history[2]->LocalExecution_0->0;
            database::digest_is_kept(specification_digest);
            let before = tables[2];
            let after = tables[3];
            assert forall|one: Seq<char>, other: Seq<char>| #[trigger]
                after.executions.contains_key(one) && #[trigger] after.executions.contains_key(other)
                    && after.executions[one].idempotency_key@
                    == after.executions[other].idempotency_key@ implies one == other by {
                if one != id@ {
                    assert(!before.has(one, id@, key@));
                    assert(before.executions.contains_key(one));
                }
                if other != id@ {
                    assert(!before.has(other, id@, key@));
                    assert(before.executions.contains_key(other));
                }
            }
        },
        _ => {},
    }
}

/// The only execution with a name or a key is what is found by them.
proof fn only_one_is_found(
    table: LocalRows,
    found: Seq<char>,
    id: String,
    key: String,
    reply: Reply,
)
    requires
        table.has_only(found, id@, key@),
        executions_change(
            table,
            Statement::LockLocalExecutionByKeys { backend_execution_id: id, idempotency_key: key },
            reply,
            table,
        ),
    ensures
        reply == Reply::LocalExecution(Some(table.executions[found])),
{
    match reply {
        Reply::LocalExecution(Some(row)) => {
            let other = choose|other: Seq<char>| #[trigger]
                table.has_only(other, id@, key@) && row == table.executions[other];
            assert(table.has(other, id@, key@));
        },
        Reply::LocalExecution(None) => {
            assert(table.lacks(id@, key@));
            assert(!table.has(found, id@, key@));
        },
        _ => {},
    }
}

/// To register an execution again finds it as it was registered, and changes nothing.
pub proof fn registering_again_finds_the_execution(
    database_url: Seq<char>,
    id: String,
    key: String,
    specification_digest: Digest,
    tables: Seq<LocalRows>,
    history: Seq<Reply>,
    execution: LocalBackendExecution,
    later_tables: Seq<LocalRows>,
    later_history: Seq<Reply>,
)
    requires
        tables[0].well_formed(),
        rows::ran(
            registering(database_url, id, key, specification_digest),
            on_executions(),
            tables,
            history,
        ),
        executor::register_step(database_url, id, key, specification_digest, history) == Step::<
            LocalBackendExecution,
            LocalBackendExecutionError,
        >::Finish(Ok(execution)),
        rows::ran(
            registering(database_url, id, key, specification_digest),
            on_executions(),
            later_tables,
            later_history,
        ),
        later_tables[0] == tables.last(),
    ensures
        executor::register_step(database_url, id, key, specification_digest, later_history)
            == Step::<LocalBackendExecution, LocalBackendExecutionError>::Finish(Ok(execution)),
        later_tables.last() == tables.last(),
{
    let operation = registering(database_url, id, key, specification_digest);
    registered(
        database_url,
        id,
        key,
        specification_digest,
        tables,
        history,
        execution,
    );
    let table = tables.last();
    next_is_done(operation, on_executions(), later_tables, later_history, 0);
    next_is_done(operation, on_executions(), later_tables, later_history, 1);
    assert(table.has(id@, id@, key@));
    assert forall|other: Seq<char>| #[trigger] table.has(other, id@, key@) implies other == id@ by {
        assert(table.executions.contains_key(other) && table.executions.contains_key(id@));
    }
    only_one_is_found(table, id@, id, key, later_history[1]);
    next_is_done(operation, on_executions(), later_tables, later_history, 2);
    end_is_reached(operation, on_executions(), later_tables, later_history, 3);
}

/// What has the name or the key of a registered execution, and those of no other, but differs from
/// it in anything is refused as a conflict, and changes nothing.
pub proof fn registering_another_is_a_conflict(
    database_url: Seq<char>,
    id: String,
    key: String,
    specification_digest: Digest,
    tables: Seq<LocalRows>,
    history: Seq<Reply>,
    execution: LocalBackendExecution,
    other_url: Seq<char>,
    other_id: String,
    other_key: String,
    other_digest: Digest,
    later_tables: Seq<LocalRows>,
    later_history: Seq<Reply>,
)
    requires
        tables[0].well_formed(),
        rows::ran(
            registering(database_url, id, key, specification_digest),
            on_executions(),
            tables,
            history,
        ),
        executor::register_step(database_url, id, key, specification_digest, history) == Step::<
            LocalBackendExecution,
            LocalBackendExecutionError,
        >::Finish(Ok(execution)),
        executor::identity_valid(other_url, other_id@, other_key@),
        other_id@ != id@ || other_key@ != key@ || other_digest != specification_digest,
        tables.last().has_only(id@, other_id@, other_key@),
        rows::ran(
            registering(other_url, other_id, other_key, other_digest),
            on_executions(),
            later_tables,
            later_history,
        ),
        later_tables[0] == tables.last(),
    ensures
        executor::register_step(other_url, other_id, other_key, other_digest, later_history)
            == executor::failed::<LocalBackendExecution>(LocalBackendExecutionFailure::Conflict),
        later_tables.last() == tables.last(),
{
    let operation = registering(other_url, other_id, other_key, other_digest);
    registered(database_url, id, key, specification_digest, tables, history, execution);
    let table = tables.last();
    next_is_done(operation, on_executions(), later_tables, later_history, 0);
    next_is_done(operation, on_executions(), later_tables, later_history, 1);
    assert(table.has(id@, other_id@, other_key@));
    only_one_is_found(table, id@, other_id, other_key, later_history[1]);
    end_is_reached(operation, on_executions(), later_tables, later_history, 2);
}

/// What an end that goes well leaves: the execution and its result are there as they were
/// returned.
proof fn completed(
    database_url: Seq<char>,
    id: String,
    terminal_state: LocalBackendExecutionState,
    classification: String,
    result_metadata: String,
    tables: Seq<LocalRows>,
    history: Seq<Reply>,
    ended: CompletedLocalBackendExecution,
)
    requires
        rows::ran(
            completing(database_url, id, terminal_state, classification, result_metadata),
            on_executions(),
            tables,
            history,
        ),
        executor::complete_step(
            database_url,
            id,
            terminal_state,
            classification,
            result_metadata,
            history,
        ) == Step::<CompletedLocalBackendExecution, LocalBackendExecutionError>::Finish(Ok(ended)),
    ensures
        tables.last().executions.contains_key(id@),
        executor::execution_of(tables.last().executions[id@]) == Ok::<
            LocalBackendExecution,
            LocalBackendExecutionFailure,
        >(ended.execution),
        tables.last().results.contains_key(id@),
        executor::result_of(tables.last().results[id@]) == Ok::<
            executor::LocalBackendExecutionResult,
            LocalBackendExecutionFailure,
        >(ended.result),
        ended.execution.state == terminal_state,
        terminal_state.is_terminal(),
        ended.result.classification@ == classification@,
        crypto::json_equal(ended.result.result_metadata@, result_metadata@),
{
    let operation = completing(database_url, id, terminal_state, classification, result_metadata);
    next_is_done(operation, on_executions(), tables, history, 0);
    next_is_done(operation, on_executions(), tables, history, 1);
    next_is_done(operation, on_executions(), tables, history, 2);
    next_is_done(operation, on_executions(), tables, history, 3);
    let found = executor::replied_execution(
        history[1],
        LocalBackendExecutionFailure::InvalidState,
    )->Ok_0;
    if found.state.is_terminal() {
        end_is_reached(operation, on_executions(), tables, history, 4);
    } else {
        next_is_done(operation, on_executions(), tables, history, 4);
        end_is_reached(operation, on_executions(), tables, history, 5);
        names_differ();
    }
}

proof fn names_differ()
    ensures
        "accepted"@ != "running"@,
        "running"@ != "succeeded"@,
        "running"@ != "failed"@,
        "running"@ != "cancelled"@,
        "accepted"@ != "succeeded"@,
        "accepted"@ != "failed"@,
        "accepted"@ != "cancelled"@,
        "succeeded"@ != "failed"@,
        "succeeded"@ != "cancelled"@,
        "failed"@ != "cancelled"@,
{
    reveal_strlit("accepted");
    reveal_strlit("running");
    reveal_strlit("succeeded");
    reveal_strlit("failed");
    reveal_strlit("cancelled");
    assert("accepted"@[0] == 'a');
    assert("running"@[0] == 'r');
    assert("succeeded"@[0] == 's');
    assert("failed"@[0] == 'f');
    assert("cancelled"@[0] == 'c');
}

/// To end an execution again in the same way finds the same end, with the moments of the first
/// time, and changes nothing.
pub proof fn completing_again_finds_the_end(
    database_url: Seq<char>,
    id: String,
    terminal_state: LocalBackendExecutionState,
    classification: String,
    result_metadata: String,
    tables: Seq<LocalRows>,
    history: Seq<Reply>,
    ended: CompletedLocalBackendExecution,
    later_tables: Seq<LocalRows>,
    later_history: Seq<Reply>,
)
    requires
        rows::ran(
            completing(database_url, id, terminal_state, classification, result_metadata),
            on_executions(),
            tables,
            history,
        ),
        executor::complete_step(
            database_url,
            id,
            terminal_state,
            classification,
            result_metadata,
            history,
        ) == Step::<CompletedLocalBackendExecution, LocalBackendExecutionError>::Finish(Ok(ended)),
        rows::ran(
            completing(database_url, id, terminal_state, classification, result_metadata),
            on_executions(),
            later_tables,
            later_history,
        ),
        later_tables[0] == tables.last(),
    ensures
        executor::complete_step(
            database_url,
            id,
            terminal_state,
            classification,
            result_metadata,
            later_history,
        ) == Step::<CompletedLocalBackendExecution, LocalBackendExecutionError>::Finish(Ok(ended)),
        later_tables.last() == tables.last(),
{
    let operation = completing(database_url, id, terminal_state, classification, result_metadata);
    completed(
        database_url,
        id,
        terminal_state,
        classification,
        result_metadata,
        tables,
        history,
        ended,
    );
    next_is_done(operation, on_executions(), later_tables, later_history, 0);
    next_is_done(operation, on_executions(), later_tables, later_history, 1);
    next_is_done(operation, on_executions(), later_tables, later_history, 2);
    next_is_done(operation, on_executions(), later_tables, later_history, 3);
    end_is_reached(operation, on_executions(), later_tables, later_history, 4);
}

/// To end an execution in another way than it ended, with another state, another classification
/// or metadata of another value, is refused as a conflict, and changes nothing.
pub proof fn completing_otherwise_is_a_conflict(
    database_url: Seq<char>,
    id: String,
    terminal_state: LocalBackendExecutionState,
    classification: String,
    result_metadata: String,
    tables: Seq<LocalRows>,
    history: Seq<Reply>,
    ended: CompletedLocalBackendExecution,
    other_url: Seq<char>,
    other_state: LocalBackendExecutionState,
    other_classification: String,
    other_metadata: String,
    later_tables: Seq<LocalRows>,
    later_history: Seq<Reply>,
)
    requires
        rows::ran(
            completing(database_url, id, terminal_state, classification, result_metadata),
            on_executions(),
            tables,
            history,
        ),
        executor::complete_step(
            database_url,
            id,
            terminal_state,
            classification,
            result_metadata,
            history,
        ) == Step::<CompletedLocalBackendExecution, LocalBackendExecutionError>::Finish(Ok(ended)),
        !text::is_blank(other_url),
        executor::terminal_name(other_state, other_classification@) is Some,
        executor::is_metadata(other_metadata@),
        other_state != terminal_state || other_classification@ != classification@
            || !crypto::json_equal(ended.result.result_metadata@, other_metadata@),
        rows::ran(
            completing(other_url, id, other_state, other_classification, other_metadata),
            on_executions(),
            later_tables,
            later_history,
        ),
        later_tables[0] == tables.last(),
    ensures
        executor::complete_step(
            other_url,
            id,
            other_state,
            other_classification,
            other_metadata,
            later_history,
        ) == executor::failed::<CompletedLocalBackendExecution>(
            LocalBackendExecutionFailure::Conflict,
        ),
        later_tables.last() == tables.last(),
{
    let operation = completing(other_url, id, other_state, other_classification, other_metadata);
    completed(
        database_url,
        id,
        terminal_state,
        classification,
        result_metadata,
        tables,
        history,
        ended,
    );
    next_is_done(operation, on_executions(), later_tables, later_history, 0);
    next_is_done(operation, on_executions(), later_tables, later_history, 1);
    next_is_done(operation, on_executions(), later_tables, later_history, 2);
    end_is_reached(operation, on_executions(), later_tables, later_history, 3);
}

proof fn states_differ()
    ensures
        "accepted"@.len() == 8,
        "running"@.len() == 7,
        "succeeded"@.len() == 9 && "succeeded"@[0] == 's',
        "failed"@.len() == 6,
        "cancelled"@.len() == 9 && "cancelled"@[0] == 'c',
{
    reveal_strlit("accepted");
    reveal_strlit("running");
    reveal_strlit("succeeded");
    reveal_strlit("failed");
    reveal_strlit("cancelled");
}

/// The name of a state.
pub open spec fn state_name(state: LocalBackendExecutionState) -> Seq<char> {
    match state {
        LocalBackendExecutionState::Accepted => "accepted"@,
        LocalBackendExecutionState::Running => "running"@,
        LocalBackendExecutionState::Succeeded => "succeeded"@,
        LocalBackendExecutionState::Failed => "failed"@,
        LocalBackendExecutionState::Cancelled => "cancelled"@,
    }
}

/// An execution as it is recorded.
pub open spec fn is_recorded(execution: LocalBackendExecution, row: LocalExecutionRow) -> bool {
    &&& execution.backend_execution_id@ == row.backend_execution_id@
    &&& execution.idempotency_key@ == row.idempotency_key@
    &&& execution.specification_digest == database::digest_of(row.specification_digest@)
    &&& row.state@ == state_name(execution.state)
    &&& execution.created_at == row.created_at
    &&& execution.started_at == row.started_at
    &&& execution.completed_at == row.completed_at
}

/// An execution under a name and a key that are both free is accepted, with the digest of what it
/// is to build.
pub proof fn free_execution_is_registered(
    database_url: Seq<char>,
    id: String,
    key: String,
    digest: Digest,
    tables: Seq<LocalRows>,
    history: Seq<Reply>,
)
    requires
        !text::is_blank(database_url),
        database::is_component(id@),
        database::is_component(key@),
        tables[0].lacks(id@, key@),
        rows::ran(registering(database_url, id, key, digest), on_executions(), tables, history),
    ensures
        executor::register_step(
            database_url,
            id,
            key,
            digest,
            history,
        ) matches Step::Finish(Ok(execution)) && {
            let row = tables.last().executions[id@];
            &&& is_recorded(execution, row)
            &&& execution.backend_execution_id@ == id@
            &&& execution.idempotency_key@ == key@
            &&& row.specification_digest@ == digest@
            &&& execution.state == LocalBackendExecutionState::Accepted
            &&& tables.last().executions == tables[0].executions.insert(id@, row)
            &&& tables.last().results == tables[0].results
        },
{
    let operation = registering(database_url, id, key, digest);
    states_differ();
    next_is_done(operation, on_executions(), tables, history, 0);
    next_is_done(operation, on_executions(), tables, history, 1);
    next_is_done(operation, on_executions(), tables, history, 2);
    next_is_done(operation, on_executions(), tables, history, 3);
    end_is_reached(operation, on_executions(), tables, history, 4);
}

/// The start of an execution.
pub open spec fn starting(database_url: Seq<char>, backend_execution_id: String) -> spec_fn(
    Seq<Reply>,
) -> Step<LocalBackendExecution, LocalBackendExecutionError> {
    |history: Seq<Reply>| executor::running_step(database_url, backend_execution_id, history)
}

/// An execution that was accepted runs once it is recorded so. One that is not there, or that was
/// started before, is refused, and nothing changes.
pub proof fn accepted_execution_is_started(
    database_url: Seq<char>,
    id: String,
    tables: Seq<LocalRows>,
    history: Seq<Reply>,
)
    requires
        !text::is_blank(database_url),
        database::is_component(id@),
        tables[0].executions.contains_key(id@) ==> executor::execution_of(
            tables[0].executions[id@],
        ) is Ok,
        rows::ran(starting(database_url, id), on_executions(), tables, history),
    ensures
        ({
            let step = executor::running_step(database_url, id, history);
            let row = tables.last().executions[id@];
            if tables[0].executions.contains_key(id@) && tables[0].executions[id@].state@
                == "accepted"@ {
                &&& is_moved(row, tables[0].executions[id@], "running"@)
                &&& row.started_at is Some
                &&& tables.last().executions == tables[0].executions.insert(id@, row)
                &&& tables.last().results == tables[0].results
                &&& step matches Step::Finish(Ok(execution)) && is_recorded(execution, row)
            } else {
                step == executor::failed::<LocalBackendExecution>(
                    LocalBackendExecutionFailure::InvalidState,
                ) && tables.last() == tables[0]
            }
        }),
{
    let operation = starting(database_url, id);
    states_differ();
    next_is_done(operation, on_executions(), tables, history, 0);
    next_is_done(operation, on_executions(), tables, history, 1);
    end_is_reached(operation, on_executions(), tables, history, 2);
}

/// The reading of an execution.
pub open spec fn reading(database_url: Seq<char>, backend_execution_id: String) -> spec_fn(
    Seq<Reply>,
) -> Step<Option<LocalBackendExecution>, LocalBackendExecutionError> {
    |history: Seq<Reply>| executor::read_step(database_url, backend_execution_id, history)
}

/// An execution is read as it is recorded, and nothing where there is none.
pub proof fn recorded_execution_is_read(
    database_url: Seq<char>,
    id: String,
    tables: Seq<LocalRows>,
    history: Seq<Reply>,
)
    requires
        !text::is_blank(database_url),
        database::is_component(id@),
        tables[0].executions.contains_key(id@) ==> executor::execution_of(
            tables[0].executions[id@],
        ) is Ok,
        rows::ran(reading(database_url, id), on_executions(), tables, history),
    ensures
        executor::read_step(database_url, id, history) matches Step::Finish(Ok(read))
            && if tables[0].executions.contains_key(id@) {
            read matches Some(execution) && is_recorded(execution, tables[0].executions[id@])
        } else {
            read is None
        },
        tables.last() == tables[0],
{
    let operation = reading(database_url, id);
    next_is_done(operation, on_executions(), tables, history, 0);
    next_is_done(operation, on_executions(), tables, history, 1);
    end_is_reached(operation, on_executions(), tables, history, 2);
}

/// The reading of a result.
pub open spec fn reading_result(database_url: Seq<char>, backend_execution_id: String) -> spec_fn(
    Seq<Reply>,
) -> Step<Option<LocalBackendExecutionResult>, LocalBackendExecutionError> {
    |history: Seq<Reply>| executor::read_result_step(database_url, backend_execution_id, history)
}

/// A result as it is recorded.
pub open spec fn is_recorded_result(
    result: LocalBackendExecutionResult,
    row: LocalResultRow,
) -> bool {
    &&& result.backend_execution_id@ == row.backend_execution_id@
    &&& result.classification@ == row.classification@
    &&& result.result_metadata@ == row.result_metadata@
    &&& result.created_at == row.created_at
}

/// The result of an execution is read as it is recorded, and nothing where there is none.
pub proof fn recorded_result_is_read(
    database_url: Seq<char>,
    id: String,
    tables: Seq<LocalRows>,
    history: Seq<Reply>,
)
    requires
        !text::is_blank(database_url),
        database::is_component(id@),
        tables[0].results.contains_key(id@) ==> executor::result_of(tables[0].results[id@]) is Ok,
        rows::ran(reading_result(database_url, id), on_executions(), tables, history),
    ensures
        executor::read_result_step(database_url, id, history) matches Step::Finish(Ok(read))
            && if tables[0].results.contains_key(id@) {
            read matches Some(result) && is_recorded_result(result, tables[0].results[id@])
        } else {
            read is None
        },
        tables.last() == tables[0],
{
    let operation = reading_result(database_url, id);
    next_is_done(operation, on_executions(), tables, history, 0);
    next_is_done(operation, on_executions(), tables, history, 1);
    end_is_reached(operation, on_executions(), tables, history, 2);
}

/// A running execution ends in the state and with the result that it is to end with: it succeeds
/// only with the classification of success, is cancelled only with that of a cancellation, and can
/// fail with any that is known. One that is not running yet, or is not there, is refused, and
/// nothing changes.
pub proof fn running_execution_is_ended(
    database_url: Seq<char>,
    id: String,
    terminal_state: LocalBackendExecutionState,
    classification: String,
    result_metadata: String,
    tables: Seq<LocalRows>,
    history: Seq<Reply>,
)
    requires
        !text::is_blank(database_url),
        database::is_component(id@),
        executor::is_classification(classification@),
        match terminal_state {
            LocalBackendExecutionState::Succeeded => classification@ == "succeeded"@,
            LocalBackendExecutionState::Failed => true,
            LocalBackendExecutionState::Cancelled => classification@ == "cancelled"@,
            _ => false,
        },
        executor::is_metadata(result_metadata@),
        forall|kept: Seq<char>| #[trigger]
            crypto::json_equal(kept, result_metadata@) ==> executor::is_metadata(kept),
        tables[0].executions.contains_key(id@) ==> executor::execution_of(
            tables[0].executions[id@],
        ) is Ok && (tables[0].executions[id@].state@ == "accepted"@
            || tables[0].executions[id@].state@ == "running"@),
        !tables[0].results.contains_key(id@),
        rows::ran(
            completing(database_url, id, terminal_state, classification, result_metadata),
            on_executions(),
            tables,
            history,
        ),
    ensures
        ({
            let step = executor::complete_step(
                database_url,
                id,
                terminal_state,
                classification,
                result_metadata,
                history,
            );
            let row = tables.last().executions[id@];
            let result = tables.last().results[id@];
            if tables[0].executions.contains_key(id@) && tables[0].executions[id@].state@
                == "running"@ {
                &&& is_moved(row, tables[0].executions[id@], state_name(terminal_state))
                &&& row.started_at == tables[0].executions[id@].started_at
                &&& row.completed_at is Some
                &&& result.backend_execution_id@ == id@
                &&& result.classification@ == classification@
                &&& crypto::json_equal(result.result_metadata@, result_metadata@)
                &&& tables.last().executions == tables[0].executions.insert(id@, row)
                &&& tables.last().results == tables[0].results.insert(id@, result)
                &&& step matches Step::Finish(Ok(ended)) && is_recorded(ended.execution, row)
                    && is_recorded_result(ended.result, result)
            } else {
                step == executor::failed::<CompletedLocalBackendExecution>(
                    LocalBackendExecutionFailure::InvalidState,
                ) && tables.last() == tables[0]
            }
        }),
{
    let operation = completing(database_url, id, terminal_state, classification, result_metadata);
    states_differ();
    next_is_done(operation, on_executions(), tables, history, 0);
    next_is_done(operation, on_executions(), tables, history, 1);
    if tables[0].executions.contains_key(id@) && tables[0].executions[id@].state@ == "running"@ {
        next_is_done(operation, on_executions(), tables, history, 2);
        next_is_done(operation, on_executions(), tables, history, 3);
        next_is_done(operation, on_executions(), tables, history, 4);
        end_is_reached(operation, on_executions(), tables, history, 5);
    } else {
        end_is_reached(operation, on_executions(), tables, history, 2);
    }
}

} // verus!
