//! Build requests: what is to be built, and for whom.

use crate::persistence::database::{
    self, bounded, component, BuildRequestRow, DatabaseFault, Moment, Reply, Statement, Step,
};
use crate::service::ipc::MAX_IPC_CREDENTIAL_ID_BYTES;
use crate::text;
use vstd::prelude::*;

verus! {

/// Why an operation on a build request failed.
#[derive(Clone, Copy, Debug, PartialEq, Eq, Structural)]
pub enum BuildRequestFailure {
    Configuration,
    Connection,
    Conflict,
    InvalidState,
    Query,
    Commit,
}

impl BuildRequestFailure {
    pub open spec fn name(self) -> Seq<char> {
        match self {
            BuildRequestFailure::Configuration => "configuration"@,
            BuildRequestFailure::Connection => "connection"@,
            BuildRequestFailure::Conflict => "conflict"@,
            BuildRequestFailure::InvalidState => "invalid_state"@,
            BuildRequestFailure::Query => "query"@,
            BuildRequestFailure::Commit => "commit"@,
        }
    }

    pub fn as_str(self) -> (name: &'static str)
        ensures
            name@ == self.name(),
    {
        match self {
            BuildRequestFailure::Configuration => "configuration",
            BuildRequestFailure::Connection => "connection",
            BuildRequestFailure::Conflict => "conflict",
            BuildRequestFailure::InvalidState => "invalid_state",
            BuildRequestFailure::Query => "query",
            BuildRequestFailure::Commit => "commit",
        }
    }
}

/// A failure of an operation on a build request.
#[derive(Clone, Copy, Debug, PartialEq, Eq, Structural)]
pub struct BuildRequestError(pub BuildRequestFailure);

impl BuildRequestError {
    pub fn failure(&self) -> (failure: BuildRequestFailure)
        ensures
            failure == self.0,
    {
        self.0
    }

    pub fn message(&self) -> (message: &'static str)
        ensures
            message@ == "build request state operation failed"@,
    {
        "build request state operation failed"
    }
}

/// A build request as it is recorded.
#[derive(Clone, Debug)]
pub struct BuildRequestState {
    pub request_id: String,
    pub derivation_path: String,
    pub system: String,
    pub audit_subject: String,
    pub quota_subject: String,
    pub created_at: Moment,
}

/// What a request is recorded with is complete and in bounds.
pub open spec fn is_request(
    request_id: Seq<char>,
    derivation_path: Seq<char>,
    system: Seq<char>,
    audit_subject: Seq<char>,
    quota_subject: Seq<char>,
    maximum_path_bytes: nat,
) -> bool {
    &&& database::is_component(request_id)
    &&& database::is_bounded(derivation_path, maximum_path_bytes)
    &&& database::is_component(system)
    &&& database::is_component(audit_subject)
    &&& database::is_bounded(quota_subject, MAX_IPC_CREDENTIAL_ID_BYTES as nat)
}

fn request_valid(
    request_id: &str,
    derivation_path: &str,
    system: &str,
    audit_subject: &str,
    quota_subject: &str,
    maximum_path_bytes: usize,
) -> (valid: bool)
    ensures
        valid == is_request(
            request_id@,
            derivation_path@,
            system@,
            audit_subject@,
            quota_subject@,
            maximum_path_bytes as nat,
        ),
{
    component(request_id) && bounded(derivation_path, maximum_path_bytes) && component(system)
        && component(audit_subject) && bounded(quota_subject, MAX_IPC_CREDENTIAL_ID_BYTES)
}

/// The request that a row records; `None` where the row is out of bounds.
pub open spec fn request_of(row: BuildRequestRow, maximum_path_bytes: nat) -> Option<
    BuildRequestState,
> {
    if is_request(
        row.request_id@,
        row.derivation_path@,
        row.system@,
        row.audit_subject@,
        row.quota_subject@,
        maximum_path_bytes,
    ) {
        Some(
            BuildRequestState {
                request_id: row.request_id,
                derivation_path: row.derivation_path,
                system: row.system,
                audit_subject: row.audit_subject,
                quota_subject: row.quota_subject,
                created_at: row.created_at,
            },
        )
    } else {
        None
    }
}

/// Reads a row; one that is out of bounds is a failed query.
pub fn decode_build_request(row: &BuildRequestRow, maximum_path_bytes: usize) -> (request: Result<
    BuildRequestState,
    BuildRequestFailure,
>)
    ensures
        match request_of(*row, maximum_path_bytes as nat) {
            Some(recorded) => request == Ok::<BuildRequestState, BuildRequestFailure>(recorded),
            None => request == Err::<BuildRequestState, BuildRequestFailure>(
                BuildRequestFailure::Query,
            ),
        },
{
    if !request_valid(
        row.request_id.as_str(),
        row.derivation_path.as_str(),
        row.system.as_str(),
        row.audit_subject.as_str(),
        row.quota_subject.as_str(),
        maximum_path_bytes,
    ) {
        return Err(BuildRequestFailure::Query);
    }
    Ok(
        BuildRequestState {
            request_id: row.request_id.clone(),
            derivation_path: row.derivation_path.clone(),
            system: row.system.clone(),
            audit_subject: row.audit_subject.clone(),
            quota_subject: row.quota_subject.clone(),
            created_at: row.created_at,
        },
    )
}

pub open spec fn failed<T>(failure: BuildRequestFailure) -> Step<T, BuildRequestError> {
    Step::Finish(Err(BuildRequestError(failure)))
}

fn fail<T>(failure: BuildRequestFailure) -> (step: Step<T, BuildRequestError>)
    ensures
        step == failed::<T>(failure),
{
    Step::Finish(Err(BuildRequestError(failure)))
}

pub open spec fn begun<T>(history: Seq<Reply>) -> Option<Step<T, BuildRequestError>> {
    database::begun(history, BuildRequestError(BuildRequestFailure::Connection))
}

fn begin<T>(history: &Vec<Reply>) -> (step: Option<Step<T, BuildRequestError>>)
    ensures
        step == begun::<T>(history@),
{
    database::begin(history, BuildRequestError(BuildRequestFailure::Connection))
}

pub open spec fn committed<T>(history: Seq<Reply>, place: int, value: T) -> Step<T, BuildRequestError> {
    database::committed(history, place, value, BuildRequestError(BuildRequestFailure::Commit))
}

fn commit<T>(history: &Vec<Reply>, place: usize, value: T) -> (step: Step<T, BuildRequestError>)
    ensures
        step == committed(history@, place as int, value),
{
    database::commit(history, place, value, BuildRequestError(BuildRequestFailure::Commit))
}

/// How a request is created: connect, insert it, commit.
pub open spec fn create_step(
    database_url: Seq<char>,
    request_id: String,
    derivation_path: String,
    system: String,
    audit_subject: String,
    quota_subject: String,
    maximum_path_bytes: nat,
    history: Seq<Reply>,
) -> Step<BuildRequestState, BuildRequestError> {
    if text::is_blank(database_url) || !is_request(
        request_id@,
        derivation_path@,
        system@,
        audit_subject@,
        quota_subject@,
        maximum_path_bytes,
    ) {
        failed(BuildRequestFailure::Configuration)
    } else if let Some(step) = begun(history) {
        step
    } else if history.len() == 1 {
        Step::Perform(
            Statement::CreateBuildRequest {
                request_id,
                derivation_path,
                system,
                audit_subject,
                quota_subject,
            },
        )
    } else {
        match history[1] {
            Reply::BuildRequest(Some(row)) => match request_of(row, maximum_path_bytes) {
                Some(request) => committed(history, 2, request),
                None => failed(BuildRequestFailure::Query),
            },
            Reply::Failed(DatabaseFault::UniqueViolation) => failed(BuildRequestFailure::Conflict),
            _ => failed(BuildRequestFailure::Query),
        }
    }
}

/// Creates a build request.
pub fn create_build_request(
    database_url: &str,
    request_id: &String,
    derivation_path: &String,
    system: &String,
    audit_subject: &String,
    quota_subject: &String,
    maximum_path_bytes: usize,
    history: &Vec<Reply>,
) -> (step: Step<BuildRequestState, BuildRequestError>)
    ensures
        step == create_step(
            database_url@,
            *request_id,
            *derivation_path,
            *system,
            *audit_subject,
            *quota_subject,
            maximum_path_bytes as nat,
            history@,
        ),
{
    if text::blank(database_url) || !request_valid(
        request_id.as_str(),
        derivation_path.as_str(),
        system.as_str(),
        audit_subject.as_str(),
        quota_subject.as_str(),
        maximum_path_bytes,
    ) {
        return fail(BuildRequestFailure::Configuration);
    }
    if let Some(step) = begin(history) {
        return step;
    }
    if history.len() == 1 {
        return Step::Perform(
            Statement::CreateBuildRequest {
                request_id: request_id.clone(),
                derivation_path: derivation_path.clone(),
                system: system.clone(),
                audit_subject: audit_subject.clone(),
                quota_subject: quota_subject.clone(),
            },
        );
    }
    match &history[1] {
        Reply::BuildRequest(Some(row)) => match decode_build_request(row, maximum_path_bytes) {
            Ok(request) => commit(history, 2, request),
            Err(failure) => fail(failure),
        },
        Reply::Failed(DatabaseFault::UniqueViolation) => fail(BuildRequestFailure::Conflict),
        _ => fail(BuildRequestFailure::Query),
    }
}

/// How a request is read.
pub open spec fn read_step(
    database_url: Seq<char>,
    request_id: String,
    maximum_path_bytes: nat,
    history: Seq<Reply>,
) -> Step<Option<BuildRequestState>, BuildRequestError> {
    if !database::is_component(request_id@) || text::is_blank(database_url) {
        failed(BuildRequestFailure::Configuration)
    } else if let Some(step) = begun(history) {
        step
    } else if history.len() == 1 {
        Step::Perform(Statement::ReadBuildRequest { request_id })
    } else {
        match history[1] {
            Reply::BuildRequest(Some(row)) => match request_of(row, maximum_path_bytes) {
                Some(request) => Step::Finish(Ok(Some(request))),
                None => failed(BuildRequestFailure::Query),
            },
            Reply::BuildRequest(None) => Step::Finish(Ok(None)),
            _ => failed(BuildRequestFailure::Query),
        }
    }
}

/// Reads a build request, if there is one.
pub fn read_build_request(
    database_url: &str,
    request_id: &String,
    maximum_path_bytes: usize,
    history: &Vec<Reply>,
) -> (step: Step<Option<BuildRequestState>, BuildRequestError>)
    ensures
        step == read_step(database_url@, *request_id, maximum_path_bytes as nat, history@),
{
    if !component(request_id.as_str()) || text::blank(database_url) {
        return fail(BuildRequestFailure::Configuration);
    }
    if let Some(step) = begin(history) {
        return step;
    }
    if history.len() == 1 {
        return Step::Perform(Statement::ReadBuildRequest { request_id: request_id.clone() });
    }
    match &history[1] {
        Reply::BuildRequest(Some(row)) => match decode_build_request(row, maximum_path_bytes) {
            Ok(request) => Step::Finish(Ok(Some(request))),
            Err(failure) => fail(failure),
        },
        Reply::BuildRequest(None) => Step::Finish(Ok(None)),
        _ => fail(BuildRequestFailure::Query),
    }
}

} // verus!
