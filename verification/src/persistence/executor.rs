//! The registry of executions on the local backend: each is registered once, runs, and ends with
//! one result.

use crate::crypto;
use crate::persistence::database::{
    self, component, digest, equal_digests, DatabaseFault, Digest, LocalExecutionRow,
    LocalResultRow, Moment, Reply, Statement, Step,
};
use crate::service::ipc::MAX_IPC_COMPONENT_BYTES;
use crate::text;
use vstd::prelude::*;

verus! {

/// Why an operation on the registry failed.
#[derive(Clone, Copy, Debug, PartialEq, Eq, Structural)]
pub enum LocalBackendExecutionFailure {
    Configuration,
    Connection,
    Conflict,
    InvalidState,
    Query,
    Commit,
}

/// A failure of an operation on the registry.
#[derive(Clone, Copy, Debug, PartialEq, Eq, Structural)]
pub struct LocalBackendExecutionError(pub LocalBackendExecutionFailure);

impl LocalBackendExecutionError {
    pub fn failure(&self) -> (failure: LocalBackendExecutionFailure)
        ensures
            failure == self.0,
    {
        self.0
    }

    pub fn message(&self) -> (message: &'static str)
        ensures
            message@ == "local backend execution registry operation failed"@,
    {
        "local backend execution registry operation failed"
    }
}

#[derive(Clone, Copy, Debug, PartialEq, Eq, Structural)]
pub enum LocalBackendExecutionState {
    Accepted,
    Running,
    Succeeded,
    Failed,
    Cancelled,
}

impl LocalBackendExecutionState {
    /// The state is one that an execution ends in.
    pub open spec fn is_terminal(self) -> bool {
        self == LocalBackendExecutionState::Succeeded || self == LocalBackendExecutionState::Failed
            || self == LocalBackendExecutionState::Cancelled
    }
}

/// An execution as it is recorded.
#[derive(Clone, Debug)]
pub struct LocalBackendExecution {
    pub backend_execution_id: String,
    pub idempotency_key: String,
    pub specification_digest: Digest,
    pub state: LocalBackendExecutionState,
    pub created_at: Moment,
    pub started_at: Option<Moment>,
    pub completed_at: Option<Moment>,
}

/// A result as it is recorded; the metadata is a JSON object.
#[derive(Clone, Debug)]
pub struct LocalBackendExecutionResult {
    pub backend_execution_id: String,
    pub classification: String,
    pub result_metadata: String,
    pub created_at: Moment,
}

/// An execution with its result.
#[derive(Clone, Debug)]
pub struct CompletedLocalBackendExecution {
    pub execution: LocalBackendExecution,
    pub result: LocalBackendExecutionResult,
}

/// There is a database to ask, and the names of the execution are in bounds.
pub open spec fn identity_valid(
    database_url: Seq<char>,
    backend_execution_id: Seq<char>,
    idempotency_key: Seq<char>,
) -> bool {
    &&& !text::is_blank(database_url)
    &&& database::is_component(backend_execution_id)
    &&& database::is_component(idempotency_key)
}

/// The state by its name and by the moments that belong to it.
pub open spec fn recorded_state(
    name: Seq<char>,
    started_at: Option<Moment>,
    completed_at: Option<Moment>,
) -> Option<LocalBackendExecutionState> {
    if name == "accepted"@ && started_at is None && completed_at is None {
        Some(LocalBackendExecutionState::Accepted)
    } else if name == "running"@ && started_at is Some && completed_at is None {
        Some(LocalBackendExecutionState::Running)
    } else if name == "succeeded"@ && completed_at is Some {
        Some(LocalBackendExecutionState::Succeeded)
    } else if name == "failed"@ && completed_at is Some {
        Some(LocalBackendExecutionState::Failed)
    } else if name == "cancelled"@ && completed_at is Some {
        Some(LocalBackendExecutionState::Cancelled)
    } else {
        None
    }
}

/// The execution that a row records, or what is wrong with the row.
pub open spec fn execution_of(row: LocalExecutionRow) -> Result<
    LocalBackendExecution,
    LocalBackendExecutionFailure,
> {
    if !database::is_component(row.backend_execution_id@) || !database::is_component(
        row.idempotency_key@,
    ) {
        Err(LocalBackendExecutionFailure::Configuration)
    } else if row.specification_digest@.len() != 32 {
        Err(LocalBackendExecutionFailure::Query)
    } else {
        match recorded_state(row.state@, row.started_at, row.completed_at) {
            Some(state) => Ok(
                LocalBackendExecution {
                    backend_execution_id: row.backend_execution_id,
                    idempotency_key: row.idempotency_key,
                    specification_digest: database::digest_of(row.specification_digest@),
                    state,
                    created_at: row.created_at,
                    started_at: row.started_at,
                    completed_at: row.completed_at,
                },
            ),
            None => Err(LocalBackendExecutionFailure::Query),
        }
    }
}

/// Reads a row of an execution.
pub fn decode_local_backend_execution(row: &LocalExecutionRow) -> (execution: Result<
    LocalBackendExecution,
    LocalBackendExecutionFailure,
>)
    ensures
        execution == execution_of(*row),
{
    if !component(row.backend_execution_id.as_str()) || !component(row.idempotency_key.as_str()) {
        return Err(LocalBackendExecutionFailure::Configuration);
    }
    let specification_digest = match digest(row.specification_digest.as_slice()) {
        Some(specification_digest) => specification_digest,
        None => {
            return Err(LocalBackendExecutionFailure::Query);
        },
    };
    let name = row.state.as_str();
    let state = if text::same_text(name, "accepted") && row.started_at.is_none()
        && row.completed_at.is_none() {
        LocalBackendExecutionState::Accepted
    } else if text::same_text(name, "running") && row.started_at.is_some()
        && row.completed_at.is_none() {
        LocalBackendExecutionState::Running
    } else if text::same_text(name, "succeeded") && row.completed_at.is_some() {
        LocalBackendExecutionState::Succeeded
    } else if text::same_text(name, "failed") && row.completed_at.is_some() {
        LocalBackendExecutionState::Failed
    } else if text::same_text(name, "cancelled") && row.completed_at.is_some() {
        LocalBackendExecutionState::Cancelled
    } else {
        return Err(LocalBackendExecutionFailure::Query);
    };
    Ok(
        LocalBackendExecution {
            backend_execution_id: row.backend_execution_id.clone(),
            idempotency_key: row.idempotency_key.clone(),
            specification_digest,
            state,
            created_at: row.created_at,
            started_at: row.started_at,
            completed_at: row.completed_at,
        },
    )
}

/// Metadata of a result: a JSON object whose text is of bounded length.
pub open spec fn is_metadata(text: Seq<char>) -> bool {
    &&& crypto::json_is_object(text) == Some(true)
    &&& database::is_bounded(text, MAX_IPC_COMPONENT_BYTES as nat)
}

fn metadata(text: &str) -> (valid: bool)
    ensures
        valid == is_metadata(text@),
{
    match crypto::json_object_text(text) {
        Some(object) => object && database::bounded(text, MAX_IPC_COMPONENT_BYTES),
        None => false,
    }
}

/// The result that a row records, or what is wrong with the row.
pub open spec fn result_of(row: LocalResultRow) -> Result<
    LocalBackendExecutionResult,
    LocalBackendExecutionFailure,
> {
    if !database::is_component(row.backend_execution_id@) {
        Err(LocalBackendExecutionFailure::Configuration)
    } else if !is_metadata(row.result_metadata@) {
        Err(LocalBackendExecutionFailure::Query)
    } else {
        Ok(
            LocalBackendExecutionResult {
                backend_execution_id: row.backend_execution_id,
                classification: row.classification,
                result_metadata: row.result_metadata,
                created_at: row.created_at,
            },
        )
    }
}

/// Reads a row of a result.
pub fn decode_local_backend_execution_result(row: &LocalResultRow) -> (result: Result<
    LocalBackendExecutionResult,
    LocalBackendExecutionFailure,
>)
    ensures
        result == result_of(*row),
{
    if !component(row.backend_execution_id.as_str()) {
        return Err(LocalBackendExecutionFailure::Configuration);
    }
    if !metadata(row.result_metadata.as_str()) {
        return Err(LocalBackendExecutionFailure::Query);
    }
    Ok(
        LocalBackendExecutionResult {
            backend_execution_id: row.backend_execution_id.clone(),
            classification: row.classification.clone(),
            result_metadata: row.result_metadata.clone(),
            created_at: row.created_at,
        },
    )
}

pub open spec fn failed<T>(failure: LocalBackendExecutionFailure) -> Step<T, LocalBackendExecutionError> {
    Step::Finish(Err(LocalBackendExecutionError(failure)))
}

fn fail<T>(failure: LocalBackendExecutionFailure) -> (step: Step<T, LocalBackendExecutionError>)
    ensures
        step == failed::<T>(failure),
{
    Step::Finish(Err(LocalBackendExecutionError(failure)))
}

pub open spec fn begun<T>(history: Seq<Reply>) -> Option<Step<T, LocalBackendExecutionError>> {
    database::begun(history, LocalBackendExecutionError(LocalBackendExecutionFailure::Connection))
}

fn begin<T>(history: &Vec<Reply>) -> (step: Option<Step<T, LocalBackendExecutionError>>)
    ensures
        step == begun::<T>(history@),
{
    database::begin(history, LocalBackendExecutionError(LocalBackendExecutionFailure::Connection))
}

pub open spec fn committed<T>(history: Seq<Reply>, place: int, value: T) -> Step<T, LocalBackendExecutionError> {
    database::committed(
        history,
        place,
        value,
        LocalBackendExecutionError(LocalBackendExecutionFailure::Commit),
    )
}

fn commit<T>(
    history: &Vec<Reply>,
    place: usize,
    value: T,
) -> (step: Step<T, LocalBackendExecutionError>)
    ensures
        step == committed(history@, place as int, value),
{
    database::commit(
        history,
        place,
        value,
        LocalBackendExecutionError(LocalBackendExecutionFailure::Commit),
    )
}

/// A reply with the row of an execution.
pub open spec fn replied_execution(reply: Reply, missing: LocalBackendExecutionFailure) -> Result<
    LocalBackendExecution,
    LocalBackendExecutionFailure,
> {
    match reply {
        Reply::LocalExecution(Some(row)) => execution_of(row),
        Reply::LocalExecution(None) => Err(missing),
        _ => Err(LocalBackendExecutionFailure::Query),
    }
}

fn execution_in(reply: &Reply, missing: LocalBackendExecutionFailure) -> (execution: Result<
    LocalBackendExecution,
    LocalBackendExecutionFailure,
>)
    ensures
        execution == replied_execution(*reply, missing),
{
    match reply {
        Reply::LocalExecution(Some(row)) => decode_local_backend_execution(row),
        Reply::LocalExecution(None) => Err(missing),
        _ => Err(LocalBackendExecutionFailure::Query),
    }
}

/// A reply with the row of a result.
pub open spec fn replied_result(reply: Reply) -> Result<
    LocalBackendExecutionResult,
    LocalBackendExecutionFailure,
> {
    match reply {
        Reply::LocalResult(Some(row)) => result_of(row),
        _ => Err(LocalBackendExecutionFailure::Query),
    }
}

fn result_in(reply: &Reply) -> (result: Result<
    LocalBackendExecutionResult,
    LocalBackendExecutionFailure,
>)
    ensures
        result == replied_result(*reply),
{
    match reply {
        Reply::LocalResult(Some(row)) => decode_local_backend_execution_result(row),
        _ => Err(LocalBackendExecutionFailure::Query),
    }
}

/// How an execution is registered: one with either key has to agree in everything, and where
/// there is none it is inserted.
pub open spec fn register_step(
    database_url: Seq<char>,
    backend_execution_id: String,
    idempotency_key: String,
    specification_digest: Digest,
    history: Seq<Reply>,
) -> Step<LocalBackendExecution, LocalBackendExecutionError> {
    if !identity_valid(database_url, backend_execution_id@, idempotency_key@) {
        failed(LocalBackendExecutionFailure::Configuration)
    } else if let Some(step) = begun(history) {
        step
    } else if history.len() == 1 {
        Step::Perform(Statement::LockLocalExecutionByKeys { backend_execution_id, idempotency_key })
    } else {
        match history[1] {
            Reply::LocalExecution(Some(row)) => match execution_of(row) {
                Ok(execution) => if execution.backend_execution_id@ != backend_execution_id@
                    || execution.idempotency_key@ != idempotency_key@
                    || execution.specification_digest != specification_digest {
                    failed(LocalBackendExecutionFailure::Conflict)
                } else {
                    committed(history, 2, execution)
                },
                Err(failure) => failed(failure),
            },
            Reply::LocalExecution(None) => if history.len() == 2 {
                Step::Perform(
                    Statement::RegisterLocalExecution {
                        backend_execution_id,
                        idempotency_key,
                        specification_digest,
                    },
                )
            } else {
                match history[2] {
                    Reply::LocalExecution(Some(row)) => match execution_of(row) {
                        Ok(execution) => committed(history, 3, execution),
                        Err(failure) => failed(failure),
                    },
                    Reply::Failed(DatabaseFault::UniqueViolation) => failed(
                        LocalBackendExecutionFailure::Conflict,
                    ),
                    _ => failed(LocalBackendExecutionFailure::Query),
                }
            },
            _ => failed(LocalBackendExecutionFailure::Query),
        }
    }
}

/// Registers an execution, or finds it as it was registered before.
pub fn register_local_backend_execution(
    database_url: &str,
    backend_execution_id: &String,
    idempotency_key: &String,
    specification_digest: &Digest,
    history: &Vec<Reply>,
) -> (step: Step<LocalBackendExecution, LocalBackendExecutionError>)
    ensures
        step == register_step(
            database_url@,
            *backend_execution_id,
            *idempotency_key,
            *specification_digest,
            history@,
        ),
{
    if text::blank(database_url) || !component(backend_execution_id.as_str()) || !component(
        idempotency_key.as_str(),
    ) {
        return fail(LocalBackendExecutionFailure::Configuration);
    }
    if let Some(step) = begin(history) {
        return step;
    }
    if history.len() == 1 {
        return Step::Perform(
            Statement::LockLocalExecutionByKeys {
                backend_execution_id: backend_execution_id.clone(),
                idempotency_key: idempotency_key.clone(),
            },
        );
    }
    match &history[1] {
        Reply::LocalExecution(Some(row)) => match decode_local_backend_execution(row) {
            Ok(execution) => {
                if !text::same_text(
                    execution.backend_execution_id.as_str(),
                    backend_execution_id.as_str(),
                ) || !text::same_text(
                    execution.idempotency_key.as_str(),
                    idempotency_key.as_str(),
                ) || !equal_digests(&execution.specification_digest, specification_digest) {
                    return fail(LocalBackendExecutionFailure::Conflict);
                }
                commit(history, 2, execution)
            },
            Err(failure) => fail(failure),
        },
        Reply::LocalExecution(None) => {
            if history.len() == 2 {
                return Step::Perform(
                    Statement::RegisterLocalExecution {
                        backend_execution_id: backend_execution_id.clone(),
                        idempotency_key: idempotency_key.clone(),
                        specification_digest: *specification_digest,
                    },
                );
            }
            match &history[2] {
                Reply::LocalExecution(Some(row)) => match decode_local_backend_execution(row) {
                    Ok(execution) => commit(history, 3, execution),
                    Err(failure) => fail(failure),
                },
                Reply::Failed(DatabaseFault::UniqueViolation) => fail(
                    LocalBackendExecutionFailure::Conflict,
                ),
                _ => fail(LocalBackendExecutionFailure::Query),
            }
        },
        _ => fail(LocalBackendExecutionFailure::Query),
    }
}

/// How the start of an execution is recorded: only an accepted one can start.
pub open spec fn running_step(
    database_url: Seq<char>,
    backend_execution_id: String,
    history: Seq<Reply>,
) -> Step<LocalBackendExecution, LocalBackendExecutionError> {
    if text::is_blank(database_url) || !database::is_component(backend_execution_id@) {
        failed(LocalBackendExecutionFailure::Configuration)
    } else if let Some(step) = begun(history) {
        step
    } else if history.len() == 1 {
        Step::Perform(Statement::StartAcceptedLocalExecution { backend_execution_id })
    } else {
        match replied_execution(history[1], LocalBackendExecutionFailure::InvalidState) {
            Ok(execution) => Step::Finish(Ok(execution)),
            Err(failure) => failed(failure),
        }
    }
}

/// Records that an execution runs.
pub fn record_local_backend_running(
    database_url: &str,
    backend_execution_id: &String,
    history: &Vec<Reply>,
) -> (step: Step<LocalBackendExecution, LocalBackendExecutionError>)
    ensures
        step == running_step(database_url@, *backend_execution_id, history@),
{
    if text::blank(database_url) || !component(backend_execution_id.as_str()) {
        return fail(LocalBackendExecutionFailure::Configuration);
    }
    if let Some(step) = begin(history) {
        return step;
    }
    if history.len() == 1 {
        return Step::Perform(
            Statement::StartAcceptedLocalExecution {
                backend_execution_id: backend_execution_id.clone(),
            },
        );
    }
    match execution_in(&history[1], LocalBackendExecutionFailure::InvalidState) {
        Ok(execution) => Step::Finish(Ok(execution)),
        Err(failure) => fail(failure),
    }
}

/// What is known of how an execution ended.
pub open spec fn is_classification(name: Seq<char>) -> bool {
    ||| name == "succeeded"@
    ||| name == "build-failure"@
    ||| name == "infrastructure-failure"@
    ||| name == "admission-failure"@
    ||| name == "input-failure"@
    ||| name == "output-failure"@
    ||| name == "cancelled"@
    ||| name == "internal-failure"@
}

/// Tells a known classification from another text.
pub fn known_classification(name: &str) -> (known: bool)
    ensures
        known == is_classification(name@),
{
    text::same_text(name, "succeeded") || text::same_text(name, "build-failure")
        || text::same_text(name, "infrastructure-failure") || text::same_text(
        name,
        "admission-failure",
    ) || text::same_text(name, "input-failure") || text::same_text(name, "output-failure")
        || text::same_text(name, "cancelled") || text::same_text(name, "internal-failure")
}

/// A last state with its name, where the classification fits it.
pub open spec fn terminal_name(
    terminal_state: LocalBackendExecutionState,
    classification: Seq<char>,
) -> Option<&'static str> {
    if !is_classification(classification) {
        None
    } else {
        match terminal_state {
            LocalBackendExecutionState::Succeeded => if classification == "succeeded"@ {
                Some("succeeded")
            } else {
                None
            },
            LocalBackendExecutionState::Failed => Some("failed"),
            LocalBackendExecutionState::Cancelled => if classification == "cancelled"@ {
                Some("cancelled")
            } else {
                None
            },
            _ => None,
        }
    }
}

fn terminal_state_name(terminal_state: LocalBackendExecutionState, classification: &str) -> (name:
    Option<&'static str>)
    ensures
        name == terminal_name(terminal_state, classification@),
{
    if !known_classification(classification) {
        return None;
    }
    match terminal_state {
        LocalBackendExecutionState::Succeeded => {
            if text::same_text(classification, "succeeded") {
                Some("succeeded")
            } else {
                None
            }
        },
        LocalBackendExecutionState::Failed => Some("failed"),
        LocalBackendExecutionState::Cancelled => {
            if text::same_text(classification, "cancelled") {
                Some("cancelled")
            } else {
                None
            }
        },
        _ => None,
    }
}

/// How an execution ends that had ended before: it is the same end, or a conflict.
pub open spec fn repeated_step(
    backend_execution_id: String,
    terminal_state: LocalBackendExecutionState,
    classification: Seq<char>,
    result_metadata: Seq<char>,
    execution: LocalBackendExecution,
    history: Seq<Reply>,
) -> Step<CompletedLocalBackendExecution, LocalBackendExecutionError> {
    if history.len() == 2 {
        Step::Perform(Statement::ReadLocalResult { backend_execution_id })
    } else {
        match replied_result(history[2]) {
            Ok(result) => if execution.state != terminal_state || result.classification@
                != classification || !crypto::json_equal(
                result.result_metadata@,
                result_metadata,
            ) {
                failed(LocalBackendExecutionFailure::Conflict)
            } else {
                committed(history, 3, CompletedLocalBackendExecution { execution, result })
            },
            Err(failure) => failed(failure),
        }
    }
}

/// How a running execution ends: the result is inserted, then the state moves.
pub open spec fn ending_step(
    backend_execution_id: String,
    state: &'static str,
    classification: String,
    result_metadata: String,
    history: Seq<Reply>,
) -> Step<CompletedLocalBackendExecution, LocalBackendExecutionError> {
    if history.len() == 2 {
        Step::Perform(
            Statement::InsertLocalResult { backend_execution_id, classification, result_metadata },
        )
    } else {
        match replied_result(history[2]) {
            Ok(result) => if history.len() == 3 {
                Step::Perform(
                    Statement::FinishRunningLocalExecution { backend_execution_id, state },
                )
            } else {
                match replied_execution(history[3], LocalBackendExecutionFailure::Query) {
                    Ok(execution) => committed(
                        history,
                        4,
                        CompletedLocalBackendExecution { execution, result },
                    ),
                    Err(failure) => failed(failure),
                }
            },
            Err(failure) => failed(failure),
        }
    }
}

/// How an execution is completed.
pub open spec fn complete_step(
    database_url: Seq<char>,
    backend_execution_id: String,
    terminal_state: LocalBackendExecutionState,
    classification: String,
    result_metadata: String,
    history: Seq<Reply>,
) -> Step<CompletedLocalBackendExecution, LocalBackendExecutionError> {
    match terminal_name(terminal_state, classification@) {
        None => failed(LocalBackendExecutionFailure::Configuration),
        Some(state) => if text::is_blank(database_url) || !database::is_component(
            backend_execution_id@,
        ) || !is_metadata(result_metadata@) {
            failed(LocalBackendExecutionFailure::Configuration)
        } else if let Some(step) = begun(history) {
            step
        } else if history.len() == 1 {
            Step::Perform(Statement::LockLocalExecution { backend_execution_id })
        } else {
            match replied_execution(history[1], LocalBackendExecutionFailure::InvalidState) {
                Ok(execution) => if execution.state.is_terminal() {
                    repeated_step(
                        backend_execution_id,
                        terminal_state,
                        classification@,
                        result_metadata@,
                        execution,
                        history,
                    )
                } else if execution.state == LocalBackendExecutionState::Running {
                    ending_step(
                        backend_execution_id,
                        state,
                        classification,
                        result_metadata,
                        history,
                    )
                } else {
                    failed(LocalBackendExecutionFailure::InvalidState)
                },
                Err(failure) => failed(failure),
            }
        },
    }
}

/// Ends an execution with its result, or finds that it ended so before. The metadata is the compact
/// text of a JSON object, with nothing between its parts but commas and colons, and that text is
/// what is measured.
pub fn complete_local_backend_execution(
    database_url: &str,
    backend_execution_id: &String,
    terminal_state: LocalBackendExecutionState,
    classification: &String,
    result_metadata: &String,
    history: &Vec<Reply>,
) -> (step: Step<CompletedLocalBackendExecution, LocalBackendExecutionError>)
    ensures
        step == complete_step(
            database_url@,
            *backend_execution_id,
            terminal_state,
            *classification,
            *result_metadata,
            history@,
        ),
{
    let state = match terminal_state_name(terminal_state, classification.as_str()) {
        Some(state) => state,
        None => {
            return fail(LocalBackendExecutionFailure::Configuration);
        },
    };
    if text::blank(database_url) || !component(backend_execution_id.as_str()) || !metadata(
        result_metadata.as_str(),
    ) {
        return fail(LocalBackendExecutionFailure::Configuration);
    }
    if let Some(step) = begin(history) {
        return step;
    }
    if history.len() == 1 {
        return Step::Perform(
            Statement::LockLocalExecution { backend_execution_id: backend_execution_id.clone() },
        );
    }
    let execution = match execution_in(&history[1], LocalBackendExecutionFailure::InvalidState) {
        Ok(execution) => execution,
        Err(failure) => {
            return fail(failure);
        },
    };
    match execution.state {
        LocalBackendExecutionState::Accepted => fail(LocalBackendExecutionFailure::InvalidState),
        LocalBackendExecutionState::Running => {
            if history.len() == 2 {
                return Step::Perform(
                    Statement::InsertLocalResult {
                        backend_execution_id: backend_execution_id.clone(),
                        classification: classification.clone(),
                        result_metadata: result_metadata.clone(),
                    },
                );
            }
            let result = match result_in(&history[2]) {
                Ok(result) => result,
                Err(failure) => {
                    return fail(failure);
                },
            };
            if history.len() == 3 {
                return Step::Perform(
                    Statement::FinishRunningLocalExecution {
                        backend_execution_id: backend_execution_id.clone(),
                        state,
                    },
                );
            }
            match execution_in(&history[3], LocalBackendExecutionFailure::Query) {
                Ok(execution) => commit(
                    history,
                    4,
                    CompletedLocalBackendExecution { execution, result },
                ),
                Err(failure) => fail(failure),
            }
        },
        _ => {
            if history.len() == 2 {
                return Step::Perform(
                    Statement::ReadLocalResult {
                        backend_execution_id: backend_execution_id.clone(),
                    },
                );
            }
            let result = match result_in(&history[2]) {
                Ok(result) => result,
                Err(failure) => {
                    return fail(failure);
                },
            };
            if execution.state != terminal_state || !text::same_text(
                result.classification.as_str(),
                classification.as_str(),
            ) || !crypto::same_json(result.result_metadata.as_str(), result_metadata.as_str()) {
                return fail(LocalBackendExecutionFailure::Conflict);
            }
            commit(history, 3, CompletedLocalBackendExecution { execution, result })
        },
    }
}

/// How a result is read.
pub open spec fn read_result_step(
    database_url: Seq<char>,
    backend_execution_id: String,
    history: Seq<Reply>,
) -> Step<Option<LocalBackendExecutionResult>, LocalBackendExecutionError> {
    if text::is_blank(database_url) || !database::is_component(backend_execution_id@) {
        failed(LocalBackendExecutionFailure::Configuration)
    } else if let Some(step) = begun(history) {
        step
    } else if history.len() == 1 {
        Step::Perform(Statement::ReadLocalResult { backend_execution_id })
    } else if history[1] matches Reply::LocalResult(None) {
        Step::Finish(Ok(None))
    } else {
        match replied_result(history[1]) {
            Ok(result) => Step::Finish(Ok(Some(result))),
            Err(failure) => failed(failure),
        }
    }
}

/// Reads the result of an execution, if there is one.
pub fn read_local_backend_execution_result(
    database_url: &str,
    backend_execution_id: &String,
    history: &Vec<Reply>,
) -> (step: Step<Option<LocalBackendExecutionResult>, LocalBackendExecutionError>)
    ensures
        step == read_result_step(database_url@, *backend_execution_id, history@),
{
    if text::blank(database_url) || !component(backend_execution_id.as_str()) {
        return fail(LocalBackendExecutionFailure::Configuration);
    }
    if let Some(step) = begin(history) {
        return step;
    }
    if history.len() == 1 {
        return Step::Perform(
            Statement::ReadLocalResult { backend_execution_id: backend_execution_id.clone() },
        );
    }
    match &history[1] {
        Reply::LocalResult(None) => Step::Finish(Ok(None)),
        reply => match result_in(reply) {
            Ok(result) => Step::Finish(Ok(Some(result))),
            Err(failure) => fail(failure),
        },
    }
}

/// How an execution is read.
pub open spec fn read_step(
    database_url: Seq<char>,
    backend_execution_id: String,
    history: Seq<Reply>,
) -> Step<Option<LocalBackendExecution>, LocalBackendExecutionError> {
    if text::is_blank(database_url) || !database::is_component(backend_execution_id@) {
        failed(LocalBackendExecutionFailure::Configuration)
    } else if let Some(step) = begun(history) {
        step
    } else if history.len() == 1 {
        Step::Perform(Statement::ReadLocalExecution { backend_execution_id })
    } else if history[1] matches Reply::LocalExecution(None) {
        Step::Finish(Ok(None))
    } else {
        match replied_execution(history[1], LocalBackendExecutionFailure::Query) {
            Ok(execution) => Step::Finish(Ok(Some(execution))),
            Err(failure) => failed(failure),
        }
    }
}

/// Reads an execution, if there is one.
pub fn read_local_backend_execution(
    database_url: &str,
    backend_execution_id: &String,
    history: &Vec<Reply>,
) -> (step: Step<Option<LocalBackendExecution>, LocalBackendExecutionError>)
    ensures
        step == read_step(database_url@, *backend_execution_id, history@),
{
    if text::blank(database_url) || !component(backend_execution_id.as_str()) {
        return fail(LocalBackendExecutionFailure::Configuration);
    }
    if let Some(step) = begin(history) {
        return step;
    }
    if history.len() == 1 {
        return Step::Perform(
            Statement::ReadLocalExecution { backend_execution_id: backend_execution_id.clone() },
        );
    }
    match &history[1] {
        Reply::LocalExecution(None) => Step::Finish(Ok(None)),
        reply => match execution_in(reply, LocalBackendExecutionFailure::Query) {
            Ok(execution) => Step::Finish(Ok(Some(execution))),
            Err(failure) => fail(failure),
        },
    }
}

/// A completed execution is never written to again: with an execution that had ended, the only
/// statements are to read its result and to commit.
pub proof fn ended_execution_is_not_rewritten(
    database_url: Seq<char>,
    backend_execution_id: String,
    terminal_state: LocalBackendExecutionState,
    classification: String,
    result_metadata: String,
    history: Seq<Reply>,
)
    requires
        history.len() >= 2,
        replied_execution(history[1], LocalBackendExecutionFailure::InvalidState) matches Ok(
            execution,
        ) && execution.state.is_terminal(),
    ensures
        complete_step(
            database_url,
            backend_execution_id,
            terminal_state,
            classification,
            result_metadata,
            history,
        ) matches Step::Perform(statement) ==> statement is Commit || statement is ReadLocalResult,
{
}

/// A result is only written for an execution that runs, and the state only moves once its result
/// is there.
pub proof fn state_moves_after_the_result(
    database_url: Seq<char>,
    backend_execution_id: String,
    terminal_state: LocalBackendExecutionState,
    classification: String,
    result_metadata: String,
    history: Seq<Reply>,
)
    requires
        complete_step(
            database_url,
            backend_execution_id,
            terminal_state,
            classification,
            result_metadata,
            history,
        ) matches Step::Perform(Statement::FinishRunningLocalExecution { .. }),
    ensures
        replied_execution(history[1], LocalBackendExecutionFailure::InvalidState) matches Ok(
            execution,
        ) && execution.state == LocalBackendExecutionState::Running,
        replied_result(history[2]) is Ok,
        complete_step(
            database_url,
            backend_execution_id,
            terminal_state,
            classification,
            result_metadata,
            history.take(2),
        ) == Step::<CompletedLocalBackendExecution, LocalBackendExecutionError>::Perform(
            Statement::InsertLocalResult { backend_execution_id, classification, result_metadata },
        ),
{
    assert(history.take(2)[0] == history[0]);
    assert(history.take(2)[1] == history[1]);
}

} // verus!
