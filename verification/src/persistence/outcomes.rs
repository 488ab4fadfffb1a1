//! Outcomes of attempts at executing requests.

use crate::crypto;
use crate::persistence::database::{
    self, component, DatabaseFault, Moment, OutcomeRow, Reply, Statement, Step,
};
use crate::text;
use vstd::prelude::*;

verus! {

/// Why an operation on outcomes failed.
#[derive(Clone, Copy, Debug, PartialEq, Eq, Structural)]
pub enum ExecutionOutcomeFailure {
    Configuration,
    Connection,
    Conflict,
    Query,
    Commit,
}

impl ExecutionOutcomeFailure {
    pub open spec fn name(self) -> Seq<char> {
        match self {
            ExecutionOutcomeFailure::Configuration => "configuration"@,
            ExecutionOutcomeFailure::Connection => "connection"@,
            ExecutionOutcomeFailure::Conflict => "conflict"@,
            ExecutionOutcomeFailure::Query => "query"@,
            ExecutionOutcomeFailure::Commit => "commit"@,
        }
    }

    pub fn as_str(self) -> (name: &'static str)
        ensures
            name@ == self.name(),
    {
        match self {
            ExecutionOutcomeFailure::Configuration => "configuration",
            ExecutionOutcomeFailure::Connection => "connection",
            ExecutionOutcomeFailure::Conflict => "conflict",
            ExecutionOutcomeFailure::Query => "query",
            ExecutionOutcomeFailure::Commit => "commit",
        }
    }
}

/// A failure of an operation on outcomes.
#[derive(Clone, Copy, Debug, PartialEq, Eq, Structural)]
pub struct ExecutionOutcomeError(pub ExecutionOutcomeFailure);

impl ExecutionOutcomeError {
    pub fn failure(&self) -> (failure: ExecutionOutcomeFailure)
        ensures
            failure == self.0,
    {
        self.0
    }

    pub fn message(&self) -> (message: &'static str)
        ensures
            message@ == "execution outcome state operation failed"@,
    {
        "execution outcome state operation failed"
    }
}

/// An outcome as it is recorded; the metadata is a JSON object.
#[derive(Clone, Debug)]
pub struct ExecutionOutcome {
    pub attempt_id: String,
    pub classification: String,
    pub result_metadata: String,
    pub created_at: Moment,
}

/// The outcome that a row records; `None` where the row is inconsistent.
pub open spec fn outcome_of(row: OutcomeRow) -> Option<ExecutionOutcome> {
    if database::is_component(row.attempt_id@) && database::is_component(row.classification@)
        && crypto::json_is_object(row.result_metadata@) == Some(true) {
        Some(
            ExecutionOutcome {
                attempt_id: row.attempt_id,
                classification: row.classification,
                result_metadata: row.result_metadata,
                created_at: row.created_at,
            },
        )
    } else {
        None
    }
}

/// Reads a row; one that is inconsistent is a failed query.
pub fn decode_execution_outcome(row: &OutcomeRow) -> (outcome: Result<
    ExecutionOutcome,
    ExecutionOutcomeFailure,
>)
    ensures
        match outcome_of(*row) {
            Some(recorded) => outcome == Ok::<ExecutionOutcome, ExecutionOutcomeFailure>(recorded),
            None => outcome == Err::<ExecutionOutcome, ExecutionOutcomeFailure>(
                ExecutionOutcomeFailure::Query,
            ),
        },
{
    if !component(row.attempt_id.as_str()) || !component(row.classification.as_str()) {
        return Err(ExecutionOutcomeFailure::Query);
    }
    match crypto::json_object_text(row.result_metadata.as_str()) {
        Some(true) => Ok(
            ExecutionOutcome {
                attempt_id: row.attempt_id.clone(),
                classification: row.classification.clone(),
                result_metadata: row.result_metadata.clone(),
                created_at: row.created_at,
            },
        ),
        _ => Err(ExecutionOutcomeFailure::Query),
    }
}

pub open spec fn failed<T>(failure: ExecutionOutcomeFailure) -> Step<T, ExecutionOutcomeError> {
    Step::Finish(Err(ExecutionOutcomeError(failure)))
}

fn fail<T>(failure: ExecutionOutcomeFailure) -> (step: Step<T, ExecutionOutcomeError>)
    ensures
        step == failed::<T>(failure),
{
    Step::Finish(Err(ExecutionOutcomeError(failure)))
}

pub open spec fn begun<T>(history: Seq<Reply>) -> Option<Step<T, ExecutionOutcomeError>> {
    database::begun(history, ExecutionOutcomeError(ExecutionOutcomeFailure::Connection))
}

fn begin<T>(history: &Vec<Reply>) -> (step: Option<Step<T, ExecutionOutcomeError>>)
    ensures
        step == begun::<T>(history@),
{
    database::begin(history, ExecutionOutcomeError(ExecutionOutcomeFailure::Connection))
}

pub open spec fn committed<T>(history: Seq<Reply>, place: int, value: T) -> Step<T, ExecutionOutcomeError> {
    database::committed(
        history,
        place,
        value,
        ExecutionOutcomeError(ExecutionOutcomeFailure::Commit),
    )
}

fn commit<T>(history: &Vec<Reply>, place: usize, value: T) -> (step: Step<T, ExecutionOutcomeError>)
    ensures
        step == committed(history@, place as int, value),
{
    database::commit(history, place, value, ExecutionOutcomeError(ExecutionOutcomeFailure::Commit))
}

/// How an outcome without metadata is recorded.
pub open spec fn create_step(
    database_url: Seq<char>,
    attempt_id: String,
    classification: String,
    history: Seq<Reply>,
) -> Step<ExecutionOutcome, ExecutionOutcomeError> {
    if text::is_blank(database_url) || !database::is_component(attempt_id@)
        || !database::is_component(classification@) {
        failed(ExecutionOutcomeFailure::Configuration)
    } else if let Some(step) = begun(history) {
        step
    } else if history.len() == 1 {
        Step::Perform(Statement::InsertPlainOutcome { attempt_id, classification })
    } else {
        match history[1] {
            Reply::Outcome(Some(row)) => match outcome_of(row) {
                Some(outcome) => committed(history, 2, outcome),
                None => failed(ExecutionOutcomeFailure::Query),
            },
            Reply::Failed(DatabaseFault::UniqueViolation) => failed(
                ExecutionOutcomeFailure::Conflict,
            ),
            _ => failed(ExecutionOutcomeFailure::Query),
        }
    }
}

/// Records an outcome without metadata.
pub fn create_execution_outcome(
    database_url: &str,
    attempt_id: &String,
    classification: &String,
    history: &Vec<Reply>,
) -> (step: Step<ExecutionOutcome, ExecutionOutcomeError>)
    ensures
        step == create_step(database_url@, *attempt_id, *classification, history@),
{
    if text::blank(database_url) || !component(attempt_id.as_str()) || !component(
        classification.as_str(),
    ) {
        return fail(ExecutionOutcomeFailure::Configuration);
    }
    if let Some(step) = begin(history) {
        return step;
    }
    if history.len() == 1 {
        return Step::Perform(
            Statement::InsertPlainOutcome {
                attempt_id: attempt_id.clone(),
                classification: classification.clone(),
            },
        );
    }
    match &history[1] {
        Reply::Outcome(Some(row)) => match decode_execution_outcome(row) {
            Ok(outcome) => commit(history, 2, outcome),
            Err(failure) => fail(failure),
        },
        Reply::Failed(DatabaseFault::UniqueViolation) => fail(ExecutionOutcomeFailure::Conflict),
        _ => fail(ExecutionOutcomeFailure::Query),
    }
}

/// How an outcome is read.
pub open spec fn read_step(
    database_url: Seq<char>,
    attempt_id: String,
    history: Seq<Reply>,
) -> Step<
    Option<ExecutionOutcome>,
    ExecutionOutcomeError,
> {
    if text::is_blank(database_url) || !database::is_component(attempt_id@) {
        failed(ExecutionOutcomeFailure::Configuration)
    } else if let Some(step) = begun(history) {
        step
    } else if history.len() == 1 {
        Step::Perform(Statement::ReadOutcome { attempt_id })
    } else {
        match history[1] {
            Reply::Outcome(Some(row)) => match outcome_of(row) {
                Some(outcome) => Step::Finish(Ok(Some(outcome))),
                None => failed(ExecutionOutcomeFailure::Query),
            },
            Reply::Outcome(None) => Step::Finish(Ok(None)),
            _ => failed(ExecutionOutcomeFailure::Query),
        }
    }
}

/// Reads the outcome of an attempt, if it has one.
pub fn read_execution_outcome(database_url: &str, attempt_id: &String, history: &Vec<Reply>) -> (step:
    Step<Option<ExecutionOutcome>, ExecutionOutcomeError>)
    ensures
        step == read_step(database_url@, *attempt_id, history@),
{
    if text::blank(database_url) || !component(attempt_id.as_str()) {
        return fail(ExecutionOutcomeFailure::Configuration);
    }
    if let Some(step) = begin(history) {
        return step;
    }
    if history.len() == 1 {
        return Step::Perform(Statement::ReadOutcome { attempt_id: attempt_id.clone() });
    }
    match &history[1] {
        Reply::Outcome(Some(row)) => match decode_execution_outcome(row) {
            Ok(outcome) => Step::Finish(Ok(Some(outcome))),
            Err(failure) => fail(failure),
        },
        Reply::Outcome(None) => Step::Finish(Ok(None)),
        _ => fail(ExecutionOutcomeFailure::Query),
    }
}

} // verus!
