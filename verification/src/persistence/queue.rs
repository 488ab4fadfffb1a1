//! The queue of build requests.

use crate::persistence::build_requests::{self, BuildRequestError, BuildRequestFailure};
use crate::persistence::database::{
    self, bounded, component, Moment, QueuedRequestRow, Reply, Statement, Step,
};
use crate::service::ipc::MAX_IPC_CREDENTIAL_ID_BYTES;
use crate::text;
use vstd::prelude::*;

verus! {

/// How far a request is.
#[derive(Clone, Copy, Debug, PartialEq, Eq, Structural)]
pub enum BuildQueueState {
    Accepted,
    Queued,
    Dispatching,
    Reconciling,
    BackendPending,
    Running,
    Collecting,
    Completed,
    Failed,
    Cancelled,
}

/// A request with its place in the queue, as it is recorded.
#[derive(Clone, Debug)]
pub struct QueuedBuildRequest {
    pub request_id: String,
    pub derivation_path: String,
    pub system: String,
    pub queue_state: BuildQueueState,
    pub queued_at: Option<Moment>,
    pub audit_subject: String,
    pub quota_subject: String,
    pub created_at: Moment,
}

/// The state by its name and by whether the request was queued.
pub open spec fn recorded_state(name: Seq<char>, queued_at: Option<Moment>) -> Option<
    BuildQueueState,
> {
    if name == "accepted"@ && queued_at is None {
        Some(BuildQueueState::Accepted)
    } else if name == "queued"@ && queued_at is Some {
        Some(BuildQueueState::Queued)
    } else if name == "dispatching"@ && queued_at is Some {
        Some(BuildQueueState::Dispatching)
    } else if name == "reconciling"@ && queued_at is Some {
        Some(BuildQueueState::Reconciling)
    } else if name == "backend-pending"@ && queued_at is Some {
        Some(BuildQueueState::BackendPending)
    } else if name == "running"@ && queued_at is Some {
        Some(BuildQueueState::Running)
    } else if name == "collecting"@ && queued_at is Some {
        Some(BuildQueueState::Collecting)
    } else if name == "completed"@ {
        Some(BuildQueueState::Completed)
    } else if name == "failed"@ && queued_at is Some {
        Some(BuildQueueState::Failed)
    } else if name == "cancelled"@ && queued_at is Some {
        Some(BuildQueueState::Cancelled)
    } else {
        None
    }
}

fn state_in(name: &str, queued_at: Option<Moment>) -> (state: Option<BuildQueueState>)
    ensures
        state == recorded_state(name@, queued_at),
{
    if text::same_text(name, "accepted") && queued_at.is_none() {
        Some(BuildQueueState::Accepted)
    } else if text::same_text(name, "queued") && queued_at.is_some() {
        Some(BuildQueueState::Queued)
    } else if text::same_text(name, "dispatching") && queued_at.is_some() {
        Some(BuildQueueState::Dispatching)
    } else if text::same_text(name, "reconciling") && queued_at.is_some() {
        Some(BuildQueueState::Reconciling)
    } else if text::same_text(name, "backend-pending") && queued_at.is_some() {
        Some(BuildQueueState::BackendPending)
    } else if text::same_text(name, "running") && queued_at.is_some() {
        Some(BuildQueueState::Running)
    } else if text::same_text(name, "collecting") && queued_at.is_some() {
        Some(BuildQueueState::Collecting)
    } else if text::same_text(name, "completed") {
        Some(BuildQueueState::Completed)
    } else if text::same_text(name, "failed") && queued_at.is_some() {
        Some(BuildQueueState::Failed)
    } else if text::same_text(name, "cancelled") && queued_at.is_some() {
        Some(BuildQueueState::Cancelled)
    } else {
        None
    }
}

/// The request that a row records; `None` where the row is inconsistent.
pub open spec fn queued_of(row: QueuedRequestRow, maximum_path_bytes: nat) -> Option<
    QueuedBuildRequest,
> {
    match recorded_state(row.queue_state@, row.queued_at) {
        Some(queue_state) => if build_requests::is_request(
            row.request_id@,
            row.derivation_path@,
            row.system@,
            row.audit_subject@,
            row.quota_subject@,
            maximum_path_bytes,
        ) {
            Some(
                QueuedBuildRequest {
                    request_id: row.request_id,
                    derivation_path: row.derivation_path,
                    system: row.system,
                    queue_state,
                    queued_at: row.queued_at,
                    audit_subject: row.audit_subject,
                    quota_subject: row.quota_subject,
                    created_at: row.created_at,
                },
            )
        } else {
            None
        },
        None => None,
    }
}

/// Reads a row; one that is inconsistent is a failed query.
pub fn decode_queued_request(row: &QueuedRequestRow, maximum_path_bytes: usize) -> (request: Result<
    QueuedBuildRequest,
    BuildRequestFailure,
>)
    ensures
        match queued_of(*row, maximum_path_bytes as nat) {
            Some(recorded) => request == Ok::<QueuedBuildRequest, BuildRequestFailure>(recorded),
            None => request == Err::<QueuedBuildRequest, BuildRequestFailure>(
                BuildRequestFailure::Query,
            ),
        },
{
    if !component(row.request_id.as_str()) || !bounded(
        row.derivation_path.as_str(),
        maximum_path_bytes,
    ) || !component(row.system.as_str()) || !component(row.audit_subject.as_str()) || !bounded(
        row.quota_subject.as_str(),
        MAX_IPC_CREDENTIAL_ID_BYTES,
    ) {
        return Err(BuildRequestFailure::Query);
    }
    match state_in(row.queue_state.as_str(), row.queued_at) {
        Some(queue_state) => Ok(
            QueuedBuildRequest {
                request_id: row.request_id.clone(),
                derivation_path: row.derivation_path.clone(),
                system: row.system.clone(),
                queue_state,
                queued_at: row.queued_at,
                audit_subject: row.audit_subject.clone(),
                quota_subject: row.quota_subject.clone(),
                created_at: row.created_at,
            },
        ),
        None => Err(BuildRequestFailure::Query),
    }
}

pub open spec fn failed<T>(failure: BuildRequestFailure) -> Step<T, BuildRequestError> {
    Step::Finish(Err(BuildRequestError(failure)))
}

fn fail<T>(failure: BuildRequestFailure) -> (step: Step<T, BuildRequestError>)
    ensures
        step == failed::<T>(failure),
{
    Step::Finish(Err(BuildRequestError(failure)))
}

pub open spec fn begun<T>(history: Seq<Reply>) -> Option<Step<T, BuildRequestError>> {
    database::begun(history, BuildRequestError(BuildRequestFailure::Connection))
}

fn begin<T>(history: &Vec<Reply>) -> (step: Option<Step<T, BuildRequestError>>)
    ensures
        step == begun::<T>(history@),
{
    database::begin(history, BuildRequestError(BuildRequestFailure::Connection))
}

pub open spec fn committed<T>(history: Seq<Reply>, place: int, value: T) -> Step<T, BuildRequestError> {
    database::committed(history, place, value, BuildRequestError(BuildRequestFailure::Commit))
}

fn commit<T>(history: &Vec<Reply>, place: usize, value: T) -> (step: Step<T, BuildRequestError>)
    ensures
        step == committed(history@, place as int, value),
{
    database::commit(history, place, value, BuildRequestError(BuildRequestFailure::Commit))
}

/// How a request is queued: it has to be accepted, and to hold leases on its derivation and its
/// inputs.
pub open spec fn queue_step(
    database_url: Seq<char>,
    request_id: String,
    maximum_path_bytes: nat,
    history: Seq<Reply>,
) -> Step<QueuedBuildRequest, BuildRequestError> {
    if !database::is_component(request_id@) || text::is_blank(database_url) {
        failed(BuildRequestFailure::Configuration)
    } else if let Some(step) = begun(history) {
        step
    } else if history.len() == 1 {
        Step::Perform(Statement::LockQueuedRequest { request_id })
    } else {
        match history[1] {
            Reply::QueuedRequest(None) => failed(BuildRequestFailure::InvalidState),
            Reply::QueuedRequest(Some(row)) => match queued_of(row, maximum_path_bytes) {
                Some(request) => if request.queue_state != BuildQueueState::Accepted {
                    failed(BuildRequestFailure::InvalidState)
                } else if history.len() == 2 {
                    Step::Perform(Statement::CountRequiredLeases { request_id })
                } else {
                    match history[2] {
                        Reply::Count(purposes) => if purposes != 2 {
                            failed(BuildRequestFailure::InvalidState)
                        } else if history.len() == 3 {
                            Step::Perform(Statement::QueueAcceptedRequest { request_id })
                        } else {
                            match history[3] {
                                Reply::QueuedRequest(Some(queued)) => match queued_of(
                                    queued,
                                    maximum_path_bytes,
                                ) {
                                    Some(queued) => committed(history, 4, queued),
                                    None => failed(BuildRequestFailure::Query),
                                },
                                _ => failed(BuildRequestFailure::Query),
                            }
                        },
                        _ => failed(BuildRequestFailure::Query),
                    }
                },
                None => failed(BuildRequestFailure::Query),
            },
            _ => failed(BuildRequestFailure::Query),
        }
    }
}

/// Queues an accepted request.
pub fn queue_build_request(
    database_url: &str,
    request_id: &String,
    maximum_path_bytes: usize,
    history: &Vec<Reply>,
) -> (step: Step<QueuedBuildRequest, BuildRequestError>)
    ensures
        step == queue_step(database_url@, *request_id, maximum_path_bytes as nat, history@),
{
    if !component(request_id.as_str()) || text::blank(database_url) {
        return fail(BuildRequestFailure::Configuration);
    }
    if let Some(step) = begin(history) {
        return step;
    }
    if history.len() == 1 {
        return Step::Perform(Statement::LockQueuedRequest { request_id: request_id.clone() });
    }
    match &history[1] {
        Reply::QueuedRequest(None) => {
            return fail(BuildRequestFailure::InvalidState);
        },
        Reply::QueuedRequest(Some(row)) => match decode_queued_request(row, maximum_path_bytes) {
            Ok(request) => {
                if request.queue_state != BuildQueueState::Accepted {
                    return fail(BuildRequestFailure::InvalidState);
                }
            },
            Err(failure) => {
                return fail(failure);
            },
        },
        _ => {
            return fail(BuildRequestFailure::Query);
        },
    }
    if history.len() == 2 {
        return Step::Perform(Statement::CountRequiredLeases { request_id: request_id.clone() });
    }
    match &history[2] {
        Reply::Count(purposes) => {
            if *purposes != 2 {
                return fail(BuildRequestFailure::InvalidState);
            }
        },
        _ => {
            return fail(BuildRequestFailure::Query);
        },
    }
    if history.len() == 3 {
        return Step::Perform(Statement::QueueAcceptedRequest { request_id: request_id.clone() });
    }
    match &history[3] {
        Reply::QueuedRequest(Some(row)) => match decode_queued_request(row, maximum_path_bytes) {
            Ok(queued) => commit(history, 4, queued),
            Err(failure) => fail(failure),
        },
        _ => fail(BuildRequestFailure::Query),
    }
}

/// The requests that rows record; `None` where one of the rows is inconsistent.
pub open spec fn all_queued_of(rows: Seq<QueuedRequestRow>, maximum_path_bytes: nat) -> Option<
    Seq<QueuedBuildRequest>,
> {
    if forall|i: int|
        0 <= i < rows.len() ==> queued_of(#[trigger] rows[i], maximum_path_bytes) is Some {
        Some(rows.map_values(|row: QueuedRequestRow| queued_of(row, maximum_path_bytes)->0))
    } else {
        None
    }
}

/// How queued requests are found again.
pub open spec fn recover_step(
    database_url: Seq<char>,
    limit: usize,
    maximum_path_bytes: nat,
    history: Seq<Reply>,
) -> Step<Seq<QueuedBuildRequest>, BuildRequestError> {
    if text::is_blank(database_url) || !(1 <= limit <= 256) {
        failed(BuildRequestFailure::Configuration)
    } else if let Some(step) = begun(history) {
        step
    } else if history.len() == 1 {
        Step::Perform(Statement::ReadQueuedRequests { maximum_rows: limit as i64 })
    } else {
        match history[1] {
            Reply::QueuedRequests(rows) => match all_queued_of(rows@, maximum_path_bytes) {
                Some(requests) => Step::Finish(Ok(requests)),
                None => failed(BuildRequestFailure::Query),
            },
            _ => failed(BuildRequestFailure::Query),
        }
    }
}

/// Finds queued requests again, first come first.
pub fn recover_queued_build_requests(
    database_url: &str,
    limit: usize,
    maximum_path_bytes: usize,
    history: &Vec<Reply>,
) -> (step: Step<Vec<QueuedBuildRequest>, BuildRequestError>)
    ensures
        database::listed(step) == recover_step(
            database_url@,
            limit,
            maximum_path_bytes as nat,
            history@,
        ),
{
    if text::blank(database_url) || limit == 0 || limit > 256 {
        return fail(BuildRequestFailure::Configuration);
    }
    if let Some(step) = begin(history) {
        return step;
    }
    if history.len() == 1 {
        return Step::Perform(Statement::ReadQueuedRequests { maximum_rows: limit as i64 });
    }
    let rows = match &history[1] {
        Reply::QueuedRequests(rows) => rows,
        _ => {
            return fail(BuildRequestFailure::Query);
        },
    };
    let mut requests: Vec<QueuedBuildRequest> = Vec::new();
    let mut i: usize = 0;
    while i < rows.len()
        invariant
            i <= rows@.len(),
            requests@.len() == i,
            forall|j: int|
                0 <= j < i ==> queued_of(#[trigger] rows@[j], maximum_path_bytes as nat) == Some(
                    requests@[j],
                ),
        ensures
            i <= rows@.len(),
            requests@.len() == i,
            forall|j: int|
                0 <= j < i ==> queued_of(#[trigger] rows@[j], maximum_path_bytes as nat) == Some(
                    requests@[j],
                ),
            i < rows@.len() ==> queued_of(rows@[i as int], maximum_path_bytes as nat) is None,
        decreases rows@.len() - i,
    {
        match decode_queued_request(&rows[i], maximum_path_bytes) {
            Ok(request) => requests.push(request),
            Err(_) => {
                break;
            },
        }
        i += 1;
    }
    if i < rows.len() {
        return fail(BuildRequestFailure::Query);
    }
    assert(requests@ =~= rows@.map_values(
        |row: QueuedRequestRow| queued_of(row, maximum_path_bytes as nat)->0,
    ));
    Step::Finish(Ok(requests))
}

/// A request is only queued while it holds leases on both its derivation and its inputs.
pub proof fn queueing_needs_leases(
    database_url: Seq<char>,
    request_id: String,
    maximum_path_bytes: nat,
    history: Seq<Reply>,
)
    requires
        queue_step(
            database_url,
            request_id,
            maximum_path_bytes,
            history,
        ) matches Step::Perform(Statement::QueueAcceptedRequest { .. }),
    ensures
        history[2] == Reply::Count(2),
{
}

} // verus!
