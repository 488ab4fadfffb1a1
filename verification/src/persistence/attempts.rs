//! Attempts at executing queued requests: they are dispatched with a reservation of capacity, pass
//! through the phases of the backend together with their request, and end with an outcome.

use crate::crypto;
use crate::persistence::database::{
    self, bounded, component, copy_option, AttemptRow, DatabaseFault, LocalResultRow, Moment, Reply,
    ReservationRow, Statement, Step,
};
use crate::persistence::executor::{
    self, decode_local_backend_execution_result, known_classification, LocalBackendExecutionResult,
};
use crate::persistence::outcomes::{self, decode_execution_outcome, ExecutionOutcome};
use crate::persistence::queue::{
    self, decode_queued_request, BuildQueueState, QueuedBuildRequest,
};
use crate::service::ipc::{MAX_IPC_COMPONENT_BYTES, MAX_IPC_CREDENTIAL_ID_BYTES};
use crate::text;
use vstd::prelude::*;

verus! {

/// Why an operation on attempts failed.
#[derive(Clone, Copy, Debug, PartialEq, Eq, Structural)]
pub enum ExecutionAttemptFailure {
    Configuration,
    Connection,
    Conflict,
    InvalidState,
    Query,
    Commit,
}

impl ExecutionAttemptFailure {
    pub open spec fn name(self) -> Seq<char> {
        match self {
            ExecutionAttemptFailure::Configuration => "configuration"@,
            ExecutionAttemptFailure::Connection => "connection"@,
            ExecutionAttemptFailure::Conflict => "conflict"@,
            ExecutionAttemptFailure::InvalidState => "invalid_state"@,
            ExecutionAttemptFailure::Query => "query"@,
            ExecutionAttemptFailure::Commit => "commit"@,
        }
    }

    pub fn as_str(self) -> (name: &'static str)
        ensures
            name@ == self.name(),
    {
        match self {
            ExecutionAttemptFailure::Configuration => "configuration",
            ExecutionAttemptFailure::Connection => "connection",
            ExecutionAttemptFailure::Conflict => "conflict",
            ExecutionAttemptFailure::InvalidState => "invalid_state",
            ExecutionAttemptFailure::Query => "query",
            ExecutionAttemptFailure::Commit => "commit",
        }
    }
}

/// A failure of an operation on attempts.
#[derive(Clone, Copy, Debug, PartialEq, Eq, Structural)]
pub struct ExecutionAttemptError(pub ExecutionAttemptFailure);

impl ExecutionAttemptError {
    pub fn failure(&self) -> (failure: ExecutionAttemptFailure)
        ensures
            failure == self.0,
    {
        self.0
    }

    pub fn message(&self) -> (message: &'static str)
        ensures
            message@ == "execution attempt state operation failed"@,
    {
        "execution attempt state operation failed"
    }
}

/// How far an attempt is.
#[derive(Clone, Copy, Debug, PartialEq, Eq, Structural)]
pub enum ExecutionAttemptState {
    Dispatching,
    Reconciling,
    BackendPending,
    Running,
    Collecting,
    Succeeded,
    Failed,
    Cancelled,
}

/// What a reservation holds capacity for.
#[derive(Clone, Copy, Debug, PartialEq, Eq, Structural)]
pub enum CapacityReservationPhase {
    Dispatching,
    BackendPending,
    Running,
    Collecting,
}

impl CapacityReservationPhase {
    pub open spec fn spec_name(self) -> &'static str {
        match self {
            CapacityReservationPhase::Dispatching => "dispatching",
            CapacityReservationPhase::BackendPending => "backend-pending",
            CapacityReservationPhase::Running => "running",
            CapacityReservationPhase::Collecting => "collecting",
        }
    }

    pub fn as_str(self) -> (name: &'static str)
        ensures
            name == self.spec_name(),
    {
        match self {
            CapacityReservationPhase::Dispatching => "dispatching",
            CapacityReservationPhase::BackendPending => "backend-pending",
            CapacityReservationPhase::Running => "running",
            CapacityReservationPhase::Collecting => "collecting",
        }
    }

    pub open spec fn named(name: Seq<char>) -> Option<Self> {
        if name == "dispatching"@ {
            Some(CapacityReservationPhase::Dispatching)
        } else if name == "backend-pending"@ {
            Some(CapacityReservationPhase::BackendPending)
        } else if name == "running"@ {
            Some(CapacityReservationPhase::Running)
        } else if name == "collecting"@ {
            Some(CapacityReservationPhase::Collecting)
        } else {
            None
        }
    }

    pub fn parse(name: &str) -> (found: Option<Self>)
        ensures
            found == Self::named(name@),
    {
        if text::same_text(name, "dispatching") {
            Some(CapacityReservationPhase::Dispatching)
        } else if text::same_text(name, "backend-pending") {
            Some(CapacityReservationPhase::BackendPending)
        } else if text::same_text(name, "running") {
            Some(CapacityReservationPhase::Running)
        } else if text::same_text(name, "collecting") {
            Some(CapacityReservationPhase::Collecting)
        } else {
            None
        }
    }

    /// The state of an attempt in the phase.
    pub open spec fn spec_attempt_state(self) -> ExecutionAttemptState {
        match self {
            CapacityReservationPhase::Dispatching => ExecutionAttemptState::Dispatching,
            CapacityReservationPhase::BackendPending => ExecutionAttemptState::BackendPending,
            CapacityReservationPhase::Running => ExecutionAttemptState::Running,
            CapacityReservationPhase::Collecting => ExecutionAttemptState::Collecting,
        }
    }

    pub fn attempt_state(self) -> (state: ExecutionAttemptState)
        ensures
            state == self.spec_attempt_state(),
    {
        match self {
            CapacityReservationPhase::Dispatching => ExecutionAttemptState::Dispatching,
            CapacityReservationPhase::BackendPending => ExecutionAttemptState::BackendPending,
            CapacityReservationPhase::Running => ExecutionAttemptState::Running,
            CapacityReservationPhase::Collecting => ExecutionAttemptState::Collecting,
        }
    }

    /// The state of a request in the phase.
    pub open spec fn spec_queue_state(self) -> BuildQueueState {
        match self {
            CapacityReservationPhase::Dispatching => BuildQueueState::Dispatching,
            CapacityReservationPhase::BackendPending => BuildQueueState::BackendPending,
            CapacityReservationPhase::Running => BuildQueueState::Running,
            CapacityReservationPhase::Collecting => BuildQueueState::Collecting,
        }
    }

    pub fn queue_state(self) -> (state: BuildQueueState)
        ensures
            state == self.spec_queue_state(),
    {
        match self {
            CapacityReservationPhase::Dispatching => BuildQueueState::Dispatching,
            CapacityReservationPhase::BackendPending => BuildQueueState::BackendPending,
            CapacityReservationPhase::Running => BuildQueueState::Running,
            CapacityReservationPhase::Collecting => BuildQueueState::Collecting,
        }
    }
}

/// The phase that an attempt is in, if it is in one.
pub open spec fn phase_of(state: ExecutionAttemptState) -> Option<CapacityReservationPhase> {
    match state {
        ExecutionAttemptState::Dispatching => Some(CapacityReservationPhase::Dispatching),
        ExecutionAttemptState::BackendPending => Some(CapacityReservationPhase::BackendPending),
        ExecutionAttemptState::Running => Some(CapacityReservationPhase::Running),
        ExecutionAttemptState::Collecting => Some(CapacityReservationPhase::Collecting),
        _ => None,
    }
}

fn active_phase(state: ExecutionAttemptState) -> (phase: Option<CapacityReservationPhase>)
    ensures
        phase == phase_of(state),
{
    match state {
        ExecutionAttemptState::Dispatching => Some(CapacityReservationPhase::Dispatching),
        ExecutionAttemptState::BackendPending => Some(CapacityReservationPhase::BackendPending),
        ExecutionAttemptState::Running => Some(CapacityReservationPhase::Running),
        ExecutionAttemptState::Collecting => Some(CapacityReservationPhase::Collecting),
        _ => None,
    }
}

/// What the name of a phase stands for is the phase.
pub proof fn phase_names_are_distinct(phase: CapacityReservationPhase)
    ensures
        CapacityReservationPhase::named(phase.spec_name()@) == Some(phase),
{
    reveal_strlit("dispatching");
    reveal_strlit("backend-pending");
    reveal_strlit("running");
    reveal_strlit("collecting");
    assert("dispatching"@.len() == 11);
    assert("backend-pending"@.len() == 15);
    assert("running"@.len() == 7);
    assert("collecting"@.len() == 10);
}

/// An attempt as it is recorded.
#[derive(Clone, Debug)]
pub struct ExecutionAttempt {
    pub attempt_id: String,
    pub request_id: String,
    pub ordinal: i32,
    pub idempotency_key: String,
    pub backend: String,
    pub backend_execution_id: Option<String>,
    pub state: ExecutionAttemptState,
    pub created_at: Moment,
    pub submitted_at: Option<Moment>,
    pub started_at: Option<Moment>,
    pub collecting_at: Option<Moment>,
    pub completed_at: Option<Moment>,
    pub fenced_at: Option<Moment>,
}

/// A reservation as it is recorded.
#[derive(Clone, Debug)]
pub struct CapacityReservation {
    pub reservation_id: String,
    pub attempt_id: String,
    pub phase: CapacityReservationPhase,
    pub quota_subject: String,
    pub units: i32,
    pub created_at: Moment,
    pub released_at: Option<Moment>,
}

/// A request with the attempt at it and its reservation.
#[derive(Clone, Debug)]
pub struct DispatchedBuildRequest {
    pub request: QueuedBuildRequest,
    pub attempt: ExecutionAttempt,
    pub reservation: CapacityReservation,
}

/// A request whose outputs were being collected, with the result of the backend.
#[derive(Clone, Debug)]
pub struct RecoveredCollectingBuildRequest {
    pub execution: DispatchedBuildRequest,
    pub backend_result: LocalBackendExecutionResult,
}

/// A request whose attempt ended.
#[derive(Clone, Debug)]
pub struct CompletedBuildRequest {
    pub request: QueuedBuildRequest,
    pub attempt: ExecutionAttempt,
    pub outcome: ExecutionOutcome,
    pub reservation: CapacityReservation,
}

/// What an attempt is recorded with is complete and in bounds.
pub open spec fn is_attempt(
    attempt_id: Seq<char>,
    request_id: Seq<char>,
    ordinal: i32,
    idempotency_key: Seq<char>,
    backend: Seq<char>,
) -> bool {
    &&& database::is_component(attempt_id)
    &&& database::is_component(request_id)
    &&& ordinal > 0
    &&& database::is_component(idempotency_key)
    &&& database::is_component(backend)
}

fn attempt_valid(
    attempt_id: &str,
    request_id: &str,
    ordinal: i32,
    idempotency_key: &str,
    backend: &str,
) -> (valid: bool)
    ensures
        valid == is_attempt(attempt_id@, request_id@, ordinal, idempotency_key@, backend@),
{
    component(attempt_id) && component(request_id) && ordinal > 0 && component(idempotency_key)
        && component(backend)
}

/// The moments that an attempt has before it ends are these.
pub open spec fn has_reached(
    row: AttemptRow,
    submitted: bool,
    started: bool,
    collecting: bool,
) -> bool {
    &&& (row.submitted_at is Some) == submitted
    &&& (row.started_at is Some) == started
    &&& (row.collecting_at is Some) == collecting
    &&& row.completed_at is None
}

fn reached(row: &AttemptRow, submitted: bool, started: bool, collecting: bool) -> (fits: bool)
    ensures
        fits == has_reached(*row, submitted, started, collecting),
{
    row.submitted_at.is_some() == submitted && row.started_at.is_some() == started
        && row.collecting_at.is_some() == collecting && row.completed_at.is_none()
}

/// The state that a row is in, by its name and by the moments that belong to it.
pub open spec fn recorded_state(row: AttemptRow) -> Option<ExecutionAttemptState> {
    if row.state@ == "dispatching"@ && has_reached(row, false, false, false) {
        Some(ExecutionAttemptState::Dispatching)
    } else if row.state@ == "reconciling"@ && has_reached(row, false, false, false)
        && row.fenced_at is Some {
        Some(ExecutionAttemptState::Reconciling)
    } else if row.state@ == "backend-pending"@ && has_reached(row, true, false, false) {
        Some(ExecutionAttemptState::BackendPending)
    } else if row.state@ == "running"@ && has_reached(row, true, true, false) {
        Some(ExecutionAttemptState::Running)
    } else if row.state@ == "collecting"@ && has_reached(row, true, true, true) {
        Some(ExecutionAttemptState::Collecting)
    } else if row.state@ == "succeeded"@ && row.completed_at is Some {
        Some(ExecutionAttemptState::Succeeded)
    } else if row.state@ == "failed"@ && row.completed_at is Some {
        Some(ExecutionAttemptState::Failed)
    } else if row.state@ == "cancelled"@ && row.completed_at is Some {
        Some(ExecutionAttemptState::Cancelled)
    } else {
        None
    }
}

fn state_in(row: &AttemptRow) -> (state: Option<ExecutionAttemptState>)
    ensures
        state == recorded_state(*row),
{
    let name = row.state.as_str();
    if text::same_text(name, "dispatching") && reached(row, false, false, false) {
        Some(ExecutionAttemptState::Dispatching)
    } else if text::same_text(name, "reconciling") && reached(row, false, false, false)
        && row.fenced_at.is_some() {
        Some(ExecutionAttemptState::Reconciling)
    } else if text::same_text(name, "backend-pending") && reached(row, true, false, false) {
        Some(ExecutionAttemptState::BackendPending)
    } else if text::same_text(name, "running") && reached(row, true, true, false) {
        Some(ExecutionAttemptState::Running)
    } else if text::same_text(name, "collecting") && reached(row, true, true, true) {
        Some(ExecutionAttemptState::Collecting)
    } else if text::same_text(name, "succeeded") && row.completed_at.is_some() {
        Some(ExecutionAttemptState::Succeeded)
    } else if text::same_text(name, "failed") && row.completed_at.is_some() {
        Some(ExecutionAttemptState::Failed)
    } else if text::same_text(name, "cancelled") && row.completed_at.is_some() {
        Some(ExecutionAttemptState::Cancelled)
    } else {
        None
    }
}

/// The attempt that a row records; `None` where the row is inconsistent.
pub open spec fn attempt_of(row: AttemptRow) -> Option<ExecutionAttempt> {
    match recorded_state(row) {
        Some(state) => if is_attempt(
            row.attempt_id@,
            row.request_id@,
            row.ordinal,
            row.idempotency_key@,
            row.backend@,
        ) && (row.backend_execution_id is Some ==> database::is_component(
            row.backend_execution_id->0@,
        )) {
            Some(
                ExecutionAttempt {
                    attempt_id: row.attempt_id,
                    request_id: row.request_id,
                    ordinal: row.ordinal,
                    idempotency_key: row.idempotency_key,
                    backend: row.backend,
                    backend_execution_id: row.backend_execution_id,
                    state,
                    created_at: row.created_at,
                    submitted_at: row.submitted_at,
                    started_at: row.started_at,
                    collecting_at: row.collecting_at,
                    completed_at: row.completed_at,
                    fenced_at: row.fenced_at,
                },
            )
        } else {
            None
        },
        None => None,
    }
}

/// Reads a row of an attempt; one that is inconsistent is a failed query.
pub fn decode_execution_attempt(row: &AttemptRow) -> (attempt: Result<
    ExecutionAttempt,
    ExecutionAttemptFailure,
>)
    ensures
        match attempt_of(*row) {
            Some(recorded) => attempt == Ok::<ExecutionAttempt, ExecutionAttemptFailure>(recorded),
            None => attempt == Err::<ExecutionAttempt, ExecutionAttemptFailure>(
                ExecutionAttemptFailure::Query,
            ),
        },
{
    if !attempt_valid(
        row.attempt_id.as_str(),
        row.request_id.as_str(),
        row.ordinal,
        row.idempotency_key.as_str(),
        row.backend.as_str(),
    ) {
        return Err(ExecutionAttemptFailure::Query);
    }
    if let Some(execution) = &row.backend_execution_id {
        if !component(execution.as_str()) {
            return Err(ExecutionAttemptFailure::Query);
        }
    }
    match state_in(row) {
        Some(state) => Ok(
            ExecutionAttempt {
                attempt_id: row.attempt_id.clone(),
                request_id: row.request_id.clone(),
                ordinal: row.ordinal,
                idempotency_key: row.idempotency_key.clone(),
                backend: row.backend.clone(),
                backend_execution_id: copy_option(&row.backend_execution_id),
                state,
                created_at: row.created_at,
                submitted_at: row.submitted_at,
                started_at: row.started_at,
                collecting_at: row.collecting_at,
                completed_at: row.completed_at,
                fenced_at: row.fenced_at,
            },
        ),
        None => Err(ExecutionAttemptFailure::Query),
    }
}

/// The reservation that a row records; `None` where the row is inconsistent.
pub open spec fn reservation_of(row: ReservationRow) -> Option<CapacityReservation> {
    match CapacityReservationPhase::named(row.phase@) {
        Some(phase) => if database::is_component(row.reservation_id@) && database::is_component(
            row.attempt_id@,
        ) && database::is_bounded(row.quota_subject@, MAX_IPC_CREDENTIAL_ID_BYTES as nat)
            && row.units > 0 && (row.released_at is Some ==> row.released_at->0
            >= row.created_at) {
            Some(
                CapacityReservation {
                    reservation_id: row.reservation_id,
                    attempt_id: row.attempt_id,
                    phase,
                    quota_subject: row.quota_subject,
                    units: row.units,
                    created_at: row.created_at,
                    released_at: row.released_at,
                },
            )
        } else {
            None
        },
        None => None,
    }
}

/// Reads a row of a reservation; one that is inconsistent is a failed query.
pub fn decode_capacity_reservation(row: &ReservationRow) -> (reservation: Result<
    CapacityReservation,
    ExecutionAttemptFailure,
>)
    ensures
        match reservation_of(*row) {
            Some(recorded) => reservation == Ok::<CapacityReservation, ExecutionAttemptFailure>(
                recorded,
            ),
            None => reservation == Err::<CapacityReservation, ExecutionAttemptFailure>(
                ExecutionAttemptFailure::Query,
            ),
        },
{
    let released_in_time = match row.released_at {
        Some(released_at) => released_at >= row.created_at,
        None => true,
    };
    if !component(row.reservation_id.as_str()) || !component(row.attempt_id.as_str()) || !bounded(
        row.quota_subject.as_str(),
        MAX_IPC_CREDENTIAL_ID_BYTES,
    ) || row.units <= 0 || !released_in_time {
        return Err(ExecutionAttemptFailure::Query);
    }
    match CapacityReservationPhase::parse(row.phase.as_str()) {
        Some(phase) => Ok(
            CapacityReservation {
                reservation_id: row.reservation_id.clone(),
                attempt_id: row.attempt_id.clone(),
                phase,
                quota_subject: row.quota_subject.clone(),
                units: row.units,
                created_at: row.created_at,
                released_at: row.released_at,
            },
        ),
        None => Err(ExecutionAttemptFailure::Query),
    }
}

pub open spec fn failed<T>(failure: ExecutionAttemptFailure) -> Step<T, ExecutionAttemptError> {
    Step::Finish(Err(ExecutionAttemptError(failure)))
}

fn fail<T>(failure: ExecutionAttemptFailure) -> (step: Step<T, ExecutionAttemptError>)
    ensures
        step == failed::<T>(failure),
{
    Step::Finish(Err(ExecutionAttemptError(failure)))
}

pub open spec fn begun<T>(history: Seq<Reply>) -> Option<Step<T, ExecutionAttemptError>> {
    database::begun(history, ExecutionAttemptError(ExecutionAttemptFailure::Connection))
}

fn begin<T>(history: &Vec<Reply>) -> (step: Option<Step<T, ExecutionAttemptError>>)
    ensures
        step == begun::<T>(history@),
{
    database::begin(history, ExecutionAttemptError(ExecutionAttemptFailure::Connection))
}

pub open spec fn committed<T>(history: Seq<Reply>, place: int, value: T) -> Step<T, ExecutionAttemptError> {
    database::committed(
        history,
        place,
        value,
        ExecutionAttemptError(ExecutionAttemptFailure::Commit),
    )
}

fn commit<T>(history: &Vec<Reply>, place: usize, value: T) -> (step: Step<T, ExecutionAttemptError>)
    ensures
        step == committed(history@, place as int, value),
{
    database::commit(history, place, value, ExecutionAttemptError(ExecutionAttemptFailure::Commit))
}

/// A reply with the row of an attempt; what no row and what a row with the same key mean is given.
pub open spec fn replied_attempt(
    reply: Reply,
    missing: ExecutionAttemptFailure,
    violation: ExecutionAttemptFailure,
) -> Result<ExecutionAttempt, ExecutionAttemptFailure> {
    match reply {
        Reply::Attempt(Some(row)) => match attempt_of(row) {
            Some(recorded) => Ok(recorded),
            None => Err(ExecutionAttemptFailure::Query),
        },
        Reply::Attempt(None) => Err(missing),
        Reply::Failed(DatabaseFault::UniqueViolation) => Err(violation),
        _ => Err(ExecutionAttemptFailure::Query),
    }
}

fn attempt_in(
    reply: &Reply,
    missing: ExecutionAttemptFailure,
    violation: ExecutionAttemptFailure,
) -> (recorded: Result<ExecutionAttempt, ExecutionAttemptFailure>)
    ensures
        recorded == replied_attempt(*reply, missing, violation),
{
    match reply {
        Reply::Attempt(Some(row)) => match decode_execution_attempt(row) {
            Ok(recorded) => Ok(recorded),
            Err(_) => Err(ExecutionAttemptFailure::Query),
        },
        Reply::Attempt(None) => Err(missing),
        Reply::Failed(DatabaseFault::UniqueViolation) => Err(violation),
        _ => Err(ExecutionAttemptFailure::Query),
    }
}

/// A reply with the row of a request; what no row and what a row with the same key mean is given.
pub open spec fn replied_request(
    reply: Reply,
    missing: ExecutionAttemptFailure,
    violation: ExecutionAttemptFailure,
    maximum_path_bytes: nat,
) -> Result<QueuedBuildRequest, ExecutionAttemptFailure> {
    match reply {
        Reply::QueuedRequest(Some(row)) => match queue::queued_of(row, maximum_path_bytes) {
            Some(recorded) => Ok(recorded),
            None => Err(ExecutionAttemptFailure::Query),
        },
        Reply::QueuedRequest(None) => Err(missing),
        Reply::Failed(DatabaseFault::UniqueViolation) => Err(violation),
        _ => Err(ExecutionAttemptFailure::Query),
    }
}

fn request_in(
    reply: &Reply,
    missing: ExecutionAttemptFailure,
    violation: ExecutionAttemptFailure,
    maximum_path_bytes: usize,
) -> (recorded: Result<QueuedBuildRequest, ExecutionAttemptFailure>)
    ensures
        recorded == replied_request(*reply, missing, violation, maximum_path_bytes as nat),
{
    match reply {
        Reply::QueuedRequest(Some(row)) => match decode_queued_request(row, maximum_path_bytes) {
            Ok(recorded) => Ok(recorded),
            Err(_) => Err(ExecutionAttemptFailure::Query),
        },
        Reply::QueuedRequest(None) => Err(missing),
        Reply::Failed(DatabaseFault::UniqueViolation) => Err(violation),
        _ => Err(ExecutionAttemptFailure::Query),
    }
}

/// A reply with the row of a reservation; what no row and what a row with the same key mean is given.
pub open spec fn replied_reservation(
    reply: Reply,
    missing: ExecutionAttemptFailure,
    violation: ExecutionAttemptFailure,
) -> Result<CapacityReservation, ExecutionAttemptFailure> {
    match reply {
        Reply::Reservation(Some(row)) => match reservation_of(row) {
            Some(recorded) => Ok(recorded),
            None => Err(ExecutionAttemptFailure::Query),
        },
        Reply::Reservation(None) => Err(missing),
        Reply::Failed(DatabaseFault::UniqueViolation) => Err(violation),
        _ => Err(ExecutionAttemptFailure::Query),
    }
}

fn reservation_in(
    reply: &Reply,
    missing: ExecutionAttemptFailure,
    violation: ExecutionAttemptFailure,
) -> (recorded: Result<CapacityReservation, ExecutionAttemptFailure>)
    ensures
        recorded == replied_reservation(*reply, missing, violation),
{
    match reply {
        Reply::Reservation(Some(row)) => match decode_capacity_reservation(row) {
            Ok(recorded) => Ok(recorded),
            Err(_) => Err(ExecutionAttemptFailure::Query),
        },
        Reply::Reservation(None) => Err(missing),
        Reply::Failed(DatabaseFault::UniqueViolation) => Err(violation),
        _ => Err(ExecutionAttemptFailure::Query),
    }
}

/// A reply with the row of an outcome; what no row and what a row with the same key mean is given.
pub open spec fn replied_outcome(
    reply: Reply,
    missing: ExecutionAttemptFailure,
    violation: ExecutionAttemptFailure,
) -> Result<ExecutionOutcome, ExecutionAttemptFailure> {
    match reply {
        Reply::Outcome(Some(row)) => match outcomes::outcome_of(row) {
            Some(recorded) => Ok(recorded),
            None => Err(ExecutionAttemptFailure::Query),
        },
        Reply::Outcome(None) => Err(missing),
        Reply::Failed(DatabaseFault::UniqueViolation) => Err(violation),
        _ => Err(ExecutionAttemptFailure::Query),
    }
}

fn outcome_in(
    reply: &Reply,
    missing: ExecutionAttemptFailure,
    violation: ExecutionAttemptFailure,
) -> (recorded: Result<ExecutionOutcome, ExecutionAttemptFailure>)
    ensures
        recorded == replied_outcome(*reply, missing, violation),
{
    match reply {
        Reply::Outcome(Some(row)) => match decode_execution_outcome(row) {
            Ok(recorded) => Ok(recorded),
            Err(_) => Err(ExecutionAttemptFailure::Query),
        },
        Reply::Outcome(None) => Err(missing),
        Reply::Failed(DatabaseFault::UniqueViolation) => Err(violation),
        _ => Err(ExecutionAttemptFailure::Query),
    }
}

/// How an attempt is recorded.
pub open spec fn create_step(
    database_url: Seq<char>,
    attempt_id: String,
    request_id: String,
    ordinal: i32,
    idempotency_key: String,
    backend: String,
    history: Seq<Reply>,
) -> Step<ExecutionAttempt, ExecutionAttemptError> {
    if text::is_blank(database_url) || !is_attempt(
        attempt_id@,
        request_id@,
        ordinal,
        idempotency_key@,
        backend@,
    ) {
        failed(ExecutionAttemptFailure::Configuration)
    } else if let Some(step) = begun(history) {
        step
    } else if history.len() == 1 {
        Step::Perform(
            Statement::InsertAttempt { attempt_id, request_id, ordinal, idempotency_key, backend },
        )
    } else {
        match replied_attempt(
            history[1],
            ExecutionAttemptFailure::Query,
            ExecutionAttemptFailure::Conflict,
        ) {
            Ok(attempt) => committed(history, 2, attempt),
            Err(failure) => failed(failure),
        }
    }
}

/// Records an attempt at a request.
pub fn create_execution_attempt(
    database_url: &str,
    attempt_id: &String,
    request_id: &String,
    ordinal: i32,
    idempotency_key: &String,
    backend: &String,
    history: &Vec<Reply>,
) -> (step: Step<ExecutionAttempt, ExecutionAttemptError>)
    ensures
        step == create_step(
            database_url@,
            *attempt_id,
            *request_id,
            ordinal,
            *idempotency_key,
            *backend,
            history@,
        ),
{
    if text::blank(database_url) || !attempt_valid(
        attempt_id.as_str(),
        request_id.as_str(),
        ordinal,
        idempotency_key.as_str(),
        backend.as_str(),
    ) {
        return fail(ExecutionAttemptFailure::Configuration);
    }
    if let Some(step) = begin(history) {
        return step;
    }
    if history.len() == 1 {
        return Step::Perform(
            Statement::InsertAttempt {
                attempt_id: attempt_id.clone(),
                request_id: request_id.clone(),
                ordinal,
                idempotency_key: idempotency_key.clone(),
                backend: backend.clone(),
            },
        );
    }
    match attempt_in(
        &history[1],
        ExecutionAttemptFailure::Query,
        ExecutionAttemptFailure::Conflict,
    ) {
        Ok(attempt) => commit(history, 2, attempt),
        Err(failure) => fail(failure),
    }
}

/// How an attempt is read.
pub open spec fn read_step(
    database_url: Seq<char>,
    attempt_id: String,
    history: Seq<Reply>,
) -> Step<
    Option<ExecutionAttempt>,
    ExecutionAttemptError,
> {
    if text::is_blank(database_url) || !database::is_component(attempt_id@) {
        failed(ExecutionAttemptFailure::Configuration)
    } else if let Some(step) = begun(history) {
        step
    } else if history.len() == 1 {
        Step::Perform(Statement::ReadAttempt { attempt_id })
    } else if history[1] matches Reply::Attempt(None) {
        Step::Finish(Ok(None))
    } else {
        match replied_attempt(
            history[1],
            ExecutionAttemptFailure::Query,
            ExecutionAttemptFailure::Query,
        ) {
            Ok(attempt) => Step::Finish(Ok(Some(attempt))),
            Err(failure) => failed(failure),
        }
    }
}

/// Reads an attempt, if there is one.
pub fn read_execution_attempt(database_url: &str, attempt_id: &String, history: &Vec<Reply>) -> (step:
    Step<Option<ExecutionAttempt>, ExecutionAttemptError>)
    ensures
        step == read_step(database_url@, *attempt_id, history@),
{
    if text::blank(database_url) || !component(attempt_id.as_str()) {
        return fail(ExecutionAttemptFailure::Configuration);
    }
    if let Some(step) = begin(history) {
        return step;
    }
    if history.len() == 1 {
        return Step::Perform(Statement::ReadAttempt { attempt_id: attempt_id.clone() });
    }
    if let Reply::Attempt(None) = &history[1] {
        return Step::Finish(Ok(None));
    }
    match attempt_in(
        &history[1],
        ExecutionAttemptFailure::Query,
        ExecutionAttemptFailure::Query,
    ) {
        Ok(attempt) => Step::Finish(Ok(Some(attempt))),
        Err(failure) => fail(failure),
    }
}

/// How a queued request is dispatched: an attempt is recorded, capacity reserved for the subject of
/// the request, and the request moved.
pub open spec fn dispatch_step(
    database_url: Seq<char>,
    request_id: String,
    attempt_id: String,
    ordinal: i32,
    idempotency_key: String,
    backend: String,
    reservation_id: String,
    units: i32,
    maximum_path_bytes: nat,
    history: Seq<Reply>,
) -> Step<DispatchedBuildRequest, ExecutionAttemptError> {
    if text::is_blank(database_url) || !is_attempt(
        attempt_id@,
        request_id@,
        ordinal,
        idempotency_key@,
        backend@,
    ) || !database::is_component(reservation_id@) || units <= 0 {
        failed(ExecutionAttemptFailure::Configuration)
    } else if let Some(step) = begun(history) {
        step
    } else if history.len() == 1 {
        Step::Perform(Statement::LockQueuedRequest { request_id })
    } else {
        match replied_request(
            history[1],
            ExecutionAttemptFailure::InvalidState,
            ExecutionAttemptFailure::Query,
            maximum_path_bytes,
        ) {
            Ok(queued) => if queued.queue_state != BuildQueueState::Queued {
                failed(ExecutionAttemptFailure::InvalidState)
            } else if history.len() == 2 {
                Step::Perform(
                    Statement::InsertAttempt {
                        attempt_id,
                        request_id,
                        ordinal,
                        idempotency_key,
                        backend,
                    },
                )
            } else {
                match replied_attempt(
                    history[2],
                    ExecutionAttemptFailure::Query,
                    ExecutionAttemptFailure::Conflict,
                ) {
                    Ok(attempt) => if history.len() == 3 {
                        Step::Perform(
                            Statement::InsertReservation {
                                reservation_id,
                                attempt_id,
                                quota_subject: queued.quota_subject,
                                units,
                            },
                        )
                    } else {
                        match replied_reservation(
                            history[3],
                            ExecutionAttemptFailure::Query,
                            ExecutionAttemptFailure::Conflict,
                        ) {
                            Ok(reservation) => if history.len() == 4 {
                                Step::Perform(
                                    Statement::MoveRequest {
                                        request_id,
                                        from: "queued",
                                        to: "dispatching",
                                    },
                                )
                            } else {
                                match replied_request(
                                    history[4],
                                    ExecutionAttemptFailure::Query,
                                    ExecutionAttemptFailure::Query,
                                    maximum_path_bytes,
                                ) {
                                    Ok(request) => committed(
                                        history,
                                        5,
                                        DispatchedBuildRequest { request, attempt, reservation },
                                    ),
                                    Err(failure) => failed(failure),
                                }
                            },
                            Err(failure) => failed(failure),
                        }
                    },
                    Err(failure) => failed(failure),
                }
            },
            Err(failure) => failed(failure),
        }
    }
}

/// Dispatches a queued request.
pub fn dispatch_build_request(
    database_url: &str,
    request_id: &String,
    attempt_id: &String,
    ordinal: i32,
    idempotency_key: &String,
    backend: &String,
    reservation_id: &String,
    units: i32,
    maximum_path_bytes: usize,
    history: &Vec<Reply>,
) -> (step: Step<DispatchedBuildRequest, ExecutionAttemptError>)
    ensures
        step == dispatch_step(
            database_url@,
            *request_id,
            *attempt_id,
            ordinal,
            *idempotency_key,
            *backend,
            *reservation_id,
            units,
            maximum_path_bytes as nat,
            history@,
        ),
{
    if text::blank(database_url) || !attempt_valid(
        attempt_id.as_str(),
        request_id.as_str(),
        ordinal,
        idempotency_key.as_str(),
        backend.as_str(),
    ) || !component(reservation_id.as_str()) || units <= 0 {
        return fail(ExecutionAttemptFailure::Configuration);
    }
    if let Some(step) = begin(history) {
        return step;
    }
    if history.len() == 1 {
        return Step::Perform(Statement::LockQueuedRequest { request_id: request_id.clone() });
    }
    let queued = match request_in(
        &history[1],
        ExecutionAttemptFailure::InvalidState,
        ExecutionAttemptFailure::Query,
        maximum_path_bytes,
    ) {
        Ok(queued) => queued,
        Err(failure) => {
            return fail(failure);
        },
    };
    if queued.queue_state != BuildQueueState::Queued {
        return fail(ExecutionAttemptFailure::InvalidState);
    }
    if history.len() == 2 {
        return Step::Perform(
            Statement::InsertAttempt {
                attempt_id: attempt_id.clone(),
                request_id: request_id.clone(),
                ordinal,
                idempotency_key: idempotency_key.clone(),
                backend: backend.clone(),
            },
        );
    }
    let attempt = match attempt_in(
        &history[2],
        ExecutionAttemptFailure::Query,
        ExecutionAttemptFailure::Conflict,
    ) {
        Ok(attempt) => attempt,
        Err(failure) => {
            return fail(failure);
        },
    };
    if history.len() == 3 {
        return Step::Perform(
            Statement::InsertReservation {
                reservation_id: reservation_id.clone(),
                attempt_id: attempt_id.clone(),
                quota_subject: queued.quota_subject.clone(),
                units,
            },
        );
    }
    let reservation = match reservation_in(
        &history[3],
        ExecutionAttemptFailure::Query,
        ExecutionAttemptFailure::Conflict,
    ) {
        Ok(reservation) => reservation,
        Err(failure) => {
            return fail(failure);
        },
    };
    if history.len() == 4 {
        return Step::Perform(
            Statement::MoveRequest {
                request_id: request_id.clone(),
                from: "queued",
                to: "dispatching",
            },
        );
    }
    match request_in(
        &history[4],
        ExecutionAttemptFailure::Query,
        ExecutionAttemptFailure::Query,
        maximum_path_bytes,
    ) {
        Ok(request) => commit(history, 5, DispatchedBuildRequest { request, attempt, reservation }),
        Err(failure) => fail(failure),
    }
}

/// How an attempt, its reservation and its request move from one phase to the next: the attempt
/// and the request have to be in the phase, and all three move together.
pub open spec fn advance_step(
    database_url: Seq<char>,
    attempt_id: String,
    from: CapacityReservationPhase,
    to: CapacityReservationPhase,
    backend_execution_id: Option<String>,
    maximum_path_bytes: nat,
    history: Seq<Reply>,
) -> Step<DispatchedBuildRequest, ExecutionAttemptError> {
    if text::is_blank(database_url) || !database::is_component(attempt_id@) || (
    backend_execution_id is Some && !database::is_component(backend_execution_id->0@)) {
        failed(ExecutionAttemptFailure::Configuration)
    } else if let Some(step) = begun(history) {
        step
    } else if history.len() == 1 {
        Step::Perform(Statement::LockAttempt { attempt_id })
    } else {
        match replied_attempt(
            history[1],
            ExecutionAttemptFailure::InvalidState,
            ExecutionAttemptFailure::Query,
        ) {
            Ok(current) => if current.state != from.spec_attempt_state() {
                failed(ExecutionAttemptFailure::InvalidState)
            } else if history.len() == 2 {
                Step::Perform(Statement::LockQueuedRequest { request_id: current.request_id })
            } else {
                match replied_request(
                    history[2],
                    ExecutionAttemptFailure::InvalidState,
                    ExecutionAttemptFailure::Query,
                    maximum_path_bytes,
                ) {
                    Ok(request) => if request.queue_state != from.spec_queue_state() {
                        failed(ExecutionAttemptFailure::InvalidState)
                    } else {
                        moving_step(
                            attempt_id,
                            current.request_id,
                            from,
                            to,
                            backend_execution_id,
                            maximum_path_bytes,
                            history,
                        )
                    },
                    Err(failure) => failed(failure),
                }
            },
            Err(failure) => failed(failure),
        }
    }
}

/// How the three move that were found in the phase.
pub open spec fn moving_step(
    attempt_id: String,
    request_id: String,
    from: CapacityReservationPhase,
    to: CapacityReservationPhase,
    backend_execution_id: Option<String>,
    maximum_path_bytes: nat,
    history: Seq<Reply>,
) -> Step<DispatchedBuildRequest, ExecutionAttemptError> {
    if history.len() == 3 {
        Step::Perform(
            Statement::MoveReservation { attempt_id, from: from.spec_name(), to: to.spec_name() },
        )
    } else {
        match replied_reservation(
            history[3],
            ExecutionAttemptFailure::InvalidState,
            ExecutionAttemptFailure::Conflict,
        ) {
            Ok(reservation) => if history.len() == 4 {
                Step::Perform(
                    Statement::MoveAttempt {
                        attempt_id,
                        from: from.spec_name(),
                        to: to.spec_name(),
                        backend_execution_id,
                    },
                )
            } else {
                match replied_attempt(
                    history[4],
                    ExecutionAttemptFailure::Query,
                    ExecutionAttemptFailure::Query,
                ) {
                    Ok(attempt) => if history.len() == 5 {
                        Step::Perform(
                            Statement::MoveRequest {
                                request_id,
                                from: from.spec_name(),
                                to: to.spec_name(),
                            },
                        )
                    } else {
                        match replied_request(
                            history[5],
                            ExecutionAttemptFailure::Query,
                            ExecutionAttemptFailure::Query,
                            maximum_path_bytes,
                        ) {
                            Ok(request) => committed(
                                history,
                                6,
                                DispatchedBuildRequest { request, attempt, reservation },
                            ),
                            Err(failure) => failed(failure),
                        }
                    },
                    Err(failure) => failed(failure),
                }
            },
            Err(failure) => failed(failure),
        }
    }
}

fn advance(
    database_url: &str,
    attempt_id: &String,
    from: CapacityReservationPhase,
    to: CapacityReservationPhase,
    backend_execution_id: &Option<String>,
    maximum_path_bytes: usize,
    history: &Vec<Reply>,
) -> (step: Step<DispatchedBuildRequest, ExecutionAttemptError>)
    ensures
        step == advance_step(
            database_url@,
            *attempt_id,
            from,
            to,
            *backend_execution_id,
            maximum_path_bytes as nat,
            history@,
        ),
{
    let execution_valid = match backend_execution_id {
        Some(execution) => component(execution.as_str()),
        None => true,
    };
    if text::blank(database_url) || !component(attempt_id.as_str()) || !execution_valid {
        return fail(ExecutionAttemptFailure::Configuration);
    }
    if let Some(step) = begin(history) {
        return step;
    }
    if history.len() == 1 {
        return Step::Perform(Statement::LockAttempt { attempt_id: attempt_id.clone() });
    }
    let current = match attempt_in(
        &history[1],
        ExecutionAttemptFailure::InvalidState,
        ExecutionAttemptFailure::Query,
    ) {
        Ok(current) => current,
        Err(failure) => {
            return fail(failure);
        },
    };
    if current.state != from.attempt_state() {
        return fail(ExecutionAttemptFailure::InvalidState);
    }
    if history.len() == 2 {
        return Step::Perform(
            Statement::LockQueuedRequest { request_id: current.request_id.clone() },
        );
    }
    match request_in(
        &history[2],
        ExecutionAttemptFailure::InvalidState,
        ExecutionAttemptFailure::Query,
        maximum_path_bytes,
    ) {
        Ok(request) => {
            if request.queue_state != from.queue_state() {
                return fail(ExecutionAttemptFailure::InvalidState);
            }
        },
        Err(failure) => {
            return fail(failure);
        },
    }
    if history.len() == 3 {
        return Step::Perform(
            Statement::MoveReservation {
                attempt_id: attempt_id.clone(),
                from: from.as_str(),
                to: to.as_str(),
            },
        );
    }
    let reservation = match reservation_in(
        &history[3],
        ExecutionAttemptFailure::InvalidState,
        ExecutionAttemptFailure::Conflict,
    ) {
        Ok(reservation) => reservation,
        Err(failure) => {
            return fail(failure);
        },
    };
    if history.len() == 4 {
        return Step::Perform(
            Statement::MoveAttempt {
                attempt_id: attempt_id.clone(),
                from: from.as_str(),
                to: to.as_str(),
                backend_execution_id: copy_option(backend_execution_id),
            },
        );
    }
    let attempt = match attempt_in(
        &history[4],
        ExecutionAttemptFailure::Query,
        ExecutionAttemptFailure::Query,
    ) {
        Ok(attempt) => attempt,
        Err(failure) => {
            return fail(failure);
        },
    };
    if history.len() == 5 {
        return Step::Perform(
            Statement::MoveRequest {
                request_id: current.request_id.clone(),
                from: from.as_str(),
                to: to.as_str(),
            },
        );
    }
    match request_in(
        &history[5],
        ExecutionAttemptFailure::Query,
        ExecutionAttemptFailure::Query,
        maximum_path_bytes,
    ) {
        Ok(request) => commit(history, 6, DispatchedBuildRequest { request, attempt, reservation }),
        Err(failure) => fail(failure),
    }
}

/// How it is recorded that the backend took an attempt.
pub open spec fn submission_step(
    database_url: Seq<char>,
    attempt_id: String,
    backend_execution_id: String,
    maximum_path_bytes: nat,
    history: Seq<Reply>,
) -> Step<DispatchedBuildRequest, ExecutionAttemptError> {
    advance_step(
        database_url,
        attempt_id,
        CapacityReservationPhase::Dispatching,
        CapacityReservationPhase::BackendPending,
        Some(backend_execution_id),
        maximum_path_bytes,
        history,
    )
}

/// Records that the backend took an attempt, and under which execution.
pub fn record_backend_submission(
    database_url: &str,
    attempt_id: &String,
    backend_execution_id: &String,
    maximum_path_bytes: usize,
    history: &Vec<Reply>,
) -> (step: Step<DispatchedBuildRequest, ExecutionAttemptError>)
    ensures
        step == submission_step(
            database_url@,
            *attempt_id,
            *backend_execution_id,
            maximum_path_bytes as nat,
            history@,
        ),
{
    advance(
        database_url,
        attempt_id,
        CapacityReservationPhase::Dispatching,
        CapacityReservationPhase::BackendPending,
        &Some(backend_execution_id.clone()),
        maximum_path_bytes,
        history,
    )
}

/// How it is recorded that the backend runs an attempt.
pub open spec fn running_step(
    database_url: Seq<char>,
    attempt_id: String,
    maximum_path_bytes: nat,
    history: Seq<Reply>,
) -> Step<DispatchedBuildRequest, ExecutionAttemptError> {
    advance_step(
        database_url,
        attempt_id,
        CapacityReservationPhase::BackendPending,
        CapacityReservationPhase::Running,
        None,
        maximum_path_bytes,
        history,
    )
}

/// Records that the backend runs an attempt.
pub fn record_backend_running(
    database_url: &str,
    attempt_id: &String,
    maximum_path_bytes: usize,
    history: &Vec<Reply>,
) -> (step: Step<DispatchedBuildRequest, ExecutionAttemptError>)
    ensures
        step == running_step(
            database_url@,
            *attempt_id,
            maximum_path_bytes as nat,
            history@,
        ),
{
    advance(
        database_url,
        attempt_id,
        CapacityReservationPhase::BackendPending,
        CapacityReservationPhase::Running,
        &None,
        maximum_path_bytes,
        history,
    )
}

/// How it is recorded that the backend completed an attempt.
pub open spec fn completed_step(
    database_url: Seq<char>,
    attempt_id: String,
    maximum_path_bytes: nat,
    history: Seq<Reply>,
) -> Step<DispatchedBuildRequest, ExecutionAttemptError> {
    advance_step(
        database_url,
        attempt_id,
        CapacityReservationPhase::Running,
        CapacityReservationPhase::Collecting,
        None,
        maximum_path_bytes,
        history,
    )
}

/// Records that the backend completed an attempt, whose outputs are then collected.
pub fn record_backend_completed(
    database_url: &str,
    attempt_id: &String,
    maximum_path_bytes: usize,
    history: &Vec<Reply>,
) -> (step: Step<DispatchedBuildRequest, ExecutionAttemptError>)
    ensures
        step == completed_step(
            database_url@,
            *attempt_id,
            maximum_path_bytes as nat,
            history@,
        ),
{
    advance(
        database_url,
        attempt_id,
        CapacityReservationPhase::Running,
        CapacityReservationPhase::Collecting,
        &None,
        maximum_path_bytes,
        history,
    )
}

/// Nothing is written on the way to a phase unless the attempt and its request are both in the
/// phase before it.
pub proof fn phases_move_in_step(
    database_url: Seq<char>,
    attempt_id: String,
    from: CapacityReservationPhase,
    to: CapacityReservationPhase,
    backend_execution_id: Option<String>,
    maximum_path_bytes: nat,
    history: Seq<Reply>,
)
    requires
        advance_step(
            database_url,
            attempt_id,
            from,
            to,
            backend_execution_id,
            maximum_path_bytes,
            history,
        ) matches Step::Perform(statement) && (statement is MoveReservation || statement
            is MoveAttempt || statement is MoveRequest || statement is Commit),
    ensures
        replied_attempt(
            history[1],
            ExecutionAttemptFailure::InvalidState,
            ExecutionAttemptFailure::Query,
        ) matches Ok(attempt) && attempt.state == from.spec_attempt_state(),
        replied_request(
            history[2],
            ExecutionAttemptFailure::InvalidState,
            ExecutionAttemptFailure::Query,
            maximum_path_bytes,
        ) matches Ok(request) && request.queue_state == from.spec_queue_state(),
{
}

/// How attempts are fenced, from one of them on, of which nobody knows whether the backend took
/// them: the reservation is released, and attempt and request wait to be reconciled.
pub open spec fn fencing_step(
    rows: Seq<AttemptRow>,
    next: nat,
    place: int,
    recovered: Seq<DispatchedBuildRequest>,
    maximum_path_bytes: nat,
    history: Seq<Reply>,
) -> Step<Seq<DispatchedBuildRequest>, ExecutionAttemptError>
    decreases rows.len() - next,
{
    if next >= rows.len() {
        committed(history, place, recovered)
    } else {
        match attempt_of(rows[next as int]) {
            Some(current) => match fenced(current, place, maximum_path_bytes, history) {
                Recovery::Performing(statement) => Step::Perform(statement),
                Recovery::Refused(failure) => failed(failure),
                Recovery::Recovered(request) => fencing_step(
                    rows,
                    next + 1,
                    place + 4,
                    recovered.push(request),
                    maximum_path_bytes,
                    history,
                ),
            },
            None => failed(ExecutionAttemptFailure::Query),
        }
    }
}

/// What became of one attempt among those that are recovered.
pub enum Recovery<T> {
    Performing(Statement),
    Refused(ExecutionAttemptFailure),
    Recovered(T),
}

/// How one attempt is fenced.
pub open spec fn fenced(
    current: ExecutionAttempt,
    place: int,
    maximum_path_bytes: nat,
    history: Seq<Reply>,
) -> Recovery<DispatchedBuildRequest> {
    if history.len() <= place {
        Recovery::Performing(Statement::LockQueuedRequest { request_id: current.request_id })
    } else {
        match replied_request(
            history[place],
            ExecutionAttemptFailure::InvalidState,
            ExecutionAttemptFailure::Query,
            maximum_path_bytes,
        ) {
            Ok(dispatching) => if dispatching.queue_state != BuildQueueState::Dispatching {
                Recovery::Refused(ExecutionAttemptFailure::InvalidState)
            } else if history.len() == place + 1 {
                Recovery::Performing(
                    Statement::ReleaseReservation {
                        attempt_id: current.attempt_id,
                        phase: CapacityReservationPhase::Dispatching.spec_name(),
                    },
                )
            } else {
                match replied_reservation(
                    history[place + 1],
                    ExecutionAttemptFailure::InvalidState,
                    ExecutionAttemptFailure::Conflict,
                ) {
                    Ok(reservation) => if history.len() == place + 2 {
                        Recovery::Performing(
                            Statement::FenceDispatchingAttempt { attempt_id: current.attempt_id },
                        )
                    } else {
                        match replied_attempt(
                            history[place + 2],
                            ExecutionAttemptFailure::Query,
                            ExecutionAttemptFailure::Query,
                        ) {
                            Ok(attempt) => if history.len() == place + 3 {
                                Recovery::Performing(
                                    Statement::MoveRequest {
                                        request_id: current.request_id,
                                        from: "dispatching",
                                        to: "reconciling",
                                    },
                                )
                            } else {
                                match replied_request(
                                    history[place + 3],
                                    ExecutionAttemptFailure::Query,
                                    ExecutionAttemptFailure::Query,
                                    maximum_path_bytes,
                                ) {
                                    Ok(request) => Recovery::Recovered(
                                        DispatchedBuildRequest { request, attempt, reservation },
                                    ),
                                    Err(failure) => Recovery::Refused(failure),
                                }
                            },
                            Err(failure) => Recovery::Refused(failure),
                        }
                    },
                    Err(failure) => Recovery::Refused(failure),
                }
            },
            Err(failure) => Recovery::Refused(failure),
        }
    }
}

fn fence_attempt(
    current: &ExecutionAttempt,
    place: usize,
    maximum_path_bytes: usize,
    history: &Vec<Reply>,
) -> (outcome: Recovery<DispatchedBuildRequest>)
    requires
        place <= history@.len(),
    ensures
        outcome == fenced(*current, place as int, maximum_path_bytes as nat, history@),
        outcome is Recovered ==> place + 4 <= history@.len(),
{
    let available: usize = history.len() - place;
    if available == 0 {
        return Recovery::Performing(
            Statement::LockQueuedRequest { request_id: current.request_id.clone() },
        );
    }
    match request_in(
        &history[place],
        ExecutionAttemptFailure::InvalidState,
        ExecutionAttemptFailure::Query,
        maximum_path_bytes,
    ) {
        Ok(dispatching) => {
            if dispatching.queue_state != BuildQueueState::Dispatching {
                return Recovery::Refused(ExecutionAttemptFailure::InvalidState);
            }
        },
        Err(failure) => {
            return Recovery::Refused(failure);
        },
    }
    if available == 1 {
        return Recovery::Performing(
            Statement::ReleaseReservation {
                attempt_id: current.attempt_id.clone(),
                phase: CapacityReservationPhase::Dispatching.as_str(),
            },
        );
    }
    let reservation = match reservation_in(
        &history[place + 1],
        ExecutionAttemptFailure::InvalidState,
        ExecutionAttemptFailure::Conflict,
    ) {
        Ok(reservation) => reservation,
        Err(failure) => {
            return Recovery::Refused(failure);
        },
    };
    if available == 2 {
        return Recovery::Performing(
            Statement::FenceDispatchingAttempt { attempt_id: current.attempt_id.clone() },
        );
    }
    let attempt = match attempt_in(
        &history[place + 2],
        ExecutionAttemptFailure::Query,
        ExecutionAttemptFailure::Query,
    ) {
        Ok(attempt) => attempt,
        Err(failure) => {
            return Recovery::Refused(failure);
        },
    };
    if available == 3 {
        return Recovery::Performing(
            Statement::MoveRequest {
                request_id: current.request_id.clone(),
                from: "dispatching",
                to: "reconciling",
            },
        );
    }
    match request_in(
        &history[place + 3],
        ExecutionAttemptFailure::Query,
        ExecutionAttemptFailure::Query,
        maximum_path_bytes,
    ) {
        Ok(request) => Recovery::Recovered(DispatchedBuildRequest { request, attempt, reservation }),
        Err(failure) => Recovery::Refused(failure),
    }
}

/// A database can be asked for so many attempts at once.
pub open spec fn is_page(database_url: Seq<char>, limit: usize) -> bool {
    !text::is_blank(database_url) && 1 <= limit <= 256
}

/// How attempts are recovered that were being dispatched when the service stopped.
pub open spec fn recover_dispatching_step(
    database_url: Seq<char>,
    limit: usize,
    maximum_path_bytes: nat,
    history: Seq<Reply>,
) -> Step<Seq<DispatchedBuildRequest>, ExecutionAttemptError> {
    if !is_page(database_url, limit) {
        failed(ExecutionAttemptFailure::Configuration)
    } else if let Some(step) = begun(history) {
        step
    } else if history.len() == 1 {
        Step::Perform(Statement::LockDispatchingAttempts { maximum_rows: limit as i64 })
    } else {
        match history[1] {
            Reply::Attempts(rows) => fencing_step(
                rows@,
                0,
                2,
                Seq::empty(),
                maximum_path_bytes,
                history,
            ),
            _ => failed(ExecutionAttemptFailure::Query),
        }
    }
}

/// Fences attempts that were being dispatched when the service stopped.
pub fn recover_dispatching_attempts(
    database_url: &str,
    limit: usize,
    maximum_path_bytes: usize,
    history: &Vec<Reply>,
) -> (step: Step<Vec<DispatchedBuildRequest>, ExecutionAttemptError>)
    ensures
        database::listed(step) == recover_dispatching_step(
            database_url@,
            limit,
            maximum_path_bytes as nat,
            history@,
        ),
{
    if text::blank(database_url) || limit == 0 || limit > 256 {
        return fail(ExecutionAttemptFailure::Configuration);
    }
    if let Some(step) = begin(history) {
        return step;
    }
    if history.len() == 1 {
        return Step::Perform(Statement::LockDispatchingAttempts { maximum_rows: limit as i64 });
    }
    let rows = match &history[1] {
        Reply::Attempts(rows) => rows,
        _ => {
            return fail(ExecutionAttemptFailure::Query);
        },
    };
    let mut recovered: Vec<DispatchedBuildRequest> = Vec::new();
    let mut next: usize = 0;
    let mut place: usize = 2;
    assert(recovered@ =~= Seq::<DispatchedBuildRequest>::empty());
    while next < rows.len()
        invariant
            next <= rows@.len(),
            place <= history@.len(),
            fencing_step(
                rows@,
                0,
                2,
                Seq::empty(),
                maximum_path_bytes as nat,
                history@,
            ) == fencing_step(
                rows@,
                next as nat,
                place as int,
                recovered@,
                maximum_path_bytes as nat,
                history@,
            ),
            history@.len() >= 2,
            history@[1] matches Reply::Attempts(listed) && listed@ == rows@,
            history@[0] is Done,
            is_page(database_url@, limit),
        decreases rows@.len() - next,
    {
        let current = match decode_execution_attempt(&rows[next]) {
            Ok(current) => current,
            Err(failure) => {
                return fail(failure);
            },
        };
        match fence_attempt(&current, place, maximum_path_bytes, history) {
            Recovery::Performing(statement) => {
                assert(statement.settled() == statement);
                return Step::Perform(statement);
            },
            Recovery::Refused(failure) => {
                return fail(failure);
            },
            Recovery::Recovered(request) => {
                recovered.push(request);
                let length: usize = history.len();
                assert(place + 4 <= length);
                place += 4;
            },
        }
        next += 1;
    }
    commit(history, place, recovered)
}

/// What is found of an attempt in a phase: its request and its reservation, both in the phase.
pub open spec fn held(
    current: ExecutionAttempt,
    phase: CapacityReservationPhase,
    place: int,
    maximum_path_bytes: nat,
    history: Seq<Reply>,
) -> Recovery<DispatchedBuildRequest> {
    if history.len() <= place {
        Recovery::Performing(
            Statement::LockQueuedRequestIn {
                request_id: current.request_id,
                queue_state: phase.spec_name(),
            },
        )
    } else {
        match replied_request(
            history[place],
            ExecutionAttemptFailure::InvalidState,
            ExecutionAttemptFailure::Query,
            maximum_path_bytes,
        ) {
            Ok(request) => if history.len() == place + 1 {
                Recovery::Performing(
                    Statement::LockReservation {
                        attempt_id: current.attempt_id,
                        phase: phase.spec_name(),
                    },
                )
            } else {
                match replied_reservation(
                    history[place + 1],
                    ExecutionAttemptFailure::InvalidState,
                    ExecutionAttemptFailure::Query,
                ) {
                    Ok(reservation) => Recovery::Recovered(
                        DispatchedBuildRequest { request, attempt: current, reservation },
                    ),
                    Err(failure) => Recovery::Refused(failure),
                }
            },
            Err(failure) => Recovery::Refused(failure),
        }
    }
}

fn hold_attempt(
    current: ExecutionAttempt,
    phase: CapacityReservationPhase,
    place: usize,
    maximum_path_bytes: usize,
    history: &Vec<Reply>,
) -> (outcome: Recovery<DispatchedBuildRequest>)
    requires
        place <= history@.len(),
    ensures
        outcome == held(current, phase, place as int, maximum_path_bytes as nat, history@),
        outcome is Recovered ==> place + 2 <= history@.len(),
{
    let available: usize = history.len() - place;
    if available == 0 {
        return Recovery::Performing(
            Statement::LockQueuedRequestIn {
                request_id: current.request_id.clone(),
                queue_state: phase.as_str(),
            },
        );
    }
    let request = match request_in(
        &history[place],
        ExecutionAttemptFailure::InvalidState,
        ExecutionAttemptFailure::Query,
        maximum_path_bytes,
    ) {
        Ok(request) => request,
        Err(failure) => {
            return Recovery::Refused(failure);
        },
    };
    if available == 1 {
        return Recovery::Performing(
            Statement::LockReservation {
                attempt_id: current.attempt_id.clone(),
                phase: phase.as_str(),
            },
        );
    }
    match reservation_in(
        &history[place + 1],
        ExecutionAttemptFailure::InvalidState,
        ExecutionAttemptFailure::Query,
    ) {
        Ok(reservation) => Recovery::Recovered(
            DispatchedBuildRequest { request, attempt: current, reservation },
        ),
        Err(failure) => Recovery::Refused(failure),
    }
}

/// How attempts in a phase are found again, from one of them on.
pub open spec fn holding_step(
    rows: Seq<AttemptRow>,
    phase: CapacityReservationPhase,
    next: nat,
    place: int,
    recovered: Seq<DispatchedBuildRequest>,
    maximum_path_bytes: nat,
    history: Seq<Reply>,
) -> Step<Seq<DispatchedBuildRequest>, ExecutionAttemptError>
    decreases rows.len() - next,
{
    if next >= rows.len() {
        committed(history, place, recovered)
    } else {
        match attempt_of(rows[next as int]) {
            Some(current) => match held(current, phase, place, maximum_path_bytes, history) {
                Recovery::Performing(statement) => Step::Perform(statement),
                Recovery::Refused(failure) => failed(failure),
                Recovery::Recovered(request) => holding_step(
                    rows,
                    phase,
                    next + 1,
                    place + 2,
                    recovered.push(request),
                    maximum_path_bytes,
                    history,
                ),
            },
            None => failed(ExecutionAttemptFailure::Query),
        }
    }
}

/// How attempts in a phase are recovered when the service starts anew.
pub open spec fn recover_held_step(
    statement: Statement,
    phase: CapacityReservationPhase,
    maximum_path_bytes: nat,
    history: Seq<Reply>,
) -> Step<Seq<DispatchedBuildRequest>, ExecutionAttemptError> {
    if let Some(step) = begun(history) {
        step
    } else if history.len() == 1 {
        Step::Perform(statement)
    } else {
        match history[1] {
            Reply::Attempts(rows) => holding_step(
                rows@,
                phase,
                0,
                2,
                Seq::empty(),
                maximum_path_bytes,
                history,
            ),
            _ => failed(ExecutionAttemptFailure::Query),
        }
    }
}

fn recover_held(
    statement: Statement,
    phase: CapacityReservationPhase,
    maximum_path_bytes: usize,
    history: &Vec<Reply>,
) -> (step: Step<Vec<DispatchedBuildRequest>, ExecutionAttemptError>)
    requires
        statement.settled() == statement,
    ensures
        database::listed(step) == recover_held_step(
            statement,
            phase,
            maximum_path_bytes as nat,
            history@,
        ),
{
    if let Some(step) = begin(history) {
        return step;
    }
    if history.len() == 1 {
        return Step::Perform(statement);
    }
    let rows = match &history[1] {
        Reply::Attempts(rows) => rows,
        _ => {
            return fail(ExecutionAttemptFailure::Query);
        },
    };
    let mut recovered: Vec<DispatchedBuildRequest> = Vec::new();
    let mut next: usize = 0;
    let mut place: usize = 2;
    assert(recovered@ =~= Seq::<DispatchedBuildRequest>::empty());
    while next < rows.len()
        invariant
            next <= rows@.len(),
            place <= history@.len(),
            holding_step(
                rows@,
                phase,
                0,
                2,
                Seq::empty(),
                maximum_path_bytes as nat,
                history@,
            ) == holding_step(
                rows@,
                phase,
                next as nat,
                place as int,
                recovered@,
                maximum_path_bytes as nat,
                history@,
            ),
            history@.len() >= 2,
            history@[1] matches Reply::Attempts(listed) && listed@ == rows@,
            history@[0] is Done,
        decreases rows@.len() - next,
    {
        let current = match decode_execution_attempt(&rows[next]) {
            Ok(current) => current,
            Err(failure) => {
                return fail(failure);
            },
        };
        match hold_attempt(current, phase, place, maximum_path_bytes, history) {
            Recovery::Performing(statement) => {
                assert(statement.settled() == statement);
                return Step::Perform(statement);
            },
            Recovery::Refused(failure) => {
                return fail(failure);
            },
            Recovery::Recovered(request) => {
                recovered.push(request);
                let length: usize = history.len();
                assert(place + 2 <= length);
                place += 2;
            },
        }
        next += 1;
    }
    commit(history, place, recovered)
}

/// How attempts are found again that the backend accepted and did not start.
pub open spec fn recover_backend_pending_step(
    database_url: Seq<char>,
    limit: usize,
    maximum_path_bytes: nat,
    history: Seq<Reply>,
) -> Step<Seq<DispatchedBuildRequest>, ExecutionAttemptError> {
    if !is_page(database_url, limit) {
        failed(ExecutionAttemptFailure::Configuration)
    } else {
        recover_held_step(
            Statement::LockPendingAttempts { maximum_rows: limit as i64 },
            CapacityReservationPhase::BackendPending,
            maximum_path_bytes,
            history,
        )
    }
}

/// Finds attempts again that the backend accepted and did not start.
pub fn recover_backend_pending_attempts(
    database_url: &str,
    limit: usize,
    maximum_path_bytes: usize,
    history: &Vec<Reply>,
) -> (step: Step<Vec<DispatchedBuildRequest>, ExecutionAttemptError>)
    ensures
        database::listed(step) == recover_backend_pending_step(
            database_url@,
            limit,
            maximum_path_bytes as nat,
            history@,
        ),
{
    if text::blank(database_url) || limit == 0 || limit > 256 {
        return fail(ExecutionAttemptFailure::Configuration);
    }
    recover_held(
        Statement::LockPendingAttempts { maximum_rows: limit as i64 },
        CapacityReservationPhase::BackendPending,
        maximum_path_bytes,
        history,
    )
}

/// How attempts are found again that the backend runs.
pub open spec fn recover_running_step(
    database_url: Seq<char>,
    limit: usize,
    maximum_path_bytes: nat,
    history: Seq<Reply>,
) -> Step<Seq<DispatchedBuildRequest>, ExecutionAttemptError> {
    if !is_page(database_url, limit) {
        failed(ExecutionAttemptFailure::Configuration)
    } else {
        recover_held_step(
            Statement::LockRunningAttempts { maximum_rows: limit as i64 },
            CapacityReservationPhase::Running,
            maximum_path_bytes,
            history,
        )
    }
}

/// Finds attempts again that the backend runs.
pub fn recover_running_attempts(
    database_url: &str,
    limit: usize,
    maximum_path_bytes: usize,
    history: &Vec<Reply>,
) -> (step: Step<Vec<DispatchedBuildRequest>, ExecutionAttemptError>)
    ensures
        database::listed(step) == recover_running_step(
            database_url@,
            limit,
            maximum_path_bytes as nat,
            history@,
        ),
{
    if text::blank(database_url) || limit == 0 || limit > 256 {
        return fail(ExecutionAttemptFailure::Configuration);
    }
    recover_held(
        Statement::LockRunningAttempts { maximum_rows: limit as i64 },
        CapacityReservationPhase::Running,
        maximum_path_bytes,
        history,
    )
}

/// How attempts are found again, from one of them on, whose outputs were being collected.
pub open spec fn collecting_step(
    rows: Seq<(AttemptRow, LocalResultRow)>,
    next: nat,
    place: int,
    recovered: Seq<RecoveredCollectingBuildRequest>,
    maximum_path_bytes: nat,
    history: Seq<Reply>,
) -> Step<Seq<RecoveredCollectingBuildRequest>, ExecutionAttemptError>
    decreases rows.len() - next,
{
    if next >= rows.len() {
        committed(history, place, recovered)
    } else {
        match attempt_of(rows[next as int].0) {
            Some(current) => match held(
                current,
                CapacityReservationPhase::Collecting,
                place,
                maximum_path_bytes,
                history,
            ) {
                Recovery::Performing(statement) => Step::Perform(statement),
                Recovery::Refused(failure) => failed(failure),
                Recovery::Recovered(execution) => match executor::result_of(rows[next as int].1) {
                    Ok(backend_result) => collecting_step(
                        rows,
                        next + 1,
                        place + 2,
                        recovered.push(
                            RecoveredCollectingBuildRequest { execution, backend_result },
                        ),
                        maximum_path_bytes,
                        history,
                    ),
                    Err(_) => failed(ExecutionAttemptFailure::Query),
                },
            },
            None => failed(ExecutionAttemptFailure::Query),
        }
    }
}

/// How attempts are recovered whose outputs were being collected when the service stopped.
pub open spec fn recover_collecting_step(
    database_url: Seq<char>,
    limit: usize,
    maximum_path_bytes: nat,
    history: Seq<Reply>,
) -> Step<Seq<RecoveredCollectingBuildRequest>, ExecutionAttemptError> {
    if !is_page(database_url, limit) {
        failed(ExecutionAttemptFailure::Configuration)
    } else if let Some(step) = begun(history) {
        step
    } else if history.len() == 1 {
        Step::Perform(Statement::LockCollectingAttempts { maximum_rows: limit as i64 })
    } else {
        match history[1] {
            Reply::CollectingAttempts(rows) => collecting_step(
                rows@,
                0,
                2,
                Seq::empty(),
                maximum_path_bytes,
                history,
            ),
            _ => failed(ExecutionAttemptFailure::Query),
        }
    }
}

/// Finds attempts again whose outputs were being collected.
pub fn recover_collecting_attempts(
    database_url: &str,
    limit: usize,
    maximum_path_bytes: usize,
    history: &Vec<Reply>,
) -> (step: Step<Vec<RecoveredCollectingBuildRequest>, ExecutionAttemptError>)
    ensures
        database::listed(step) == recover_collecting_step(
            database_url@,
            limit,
            maximum_path_bytes as nat,
            history@,
        ),
{
    if text::blank(database_url) || limit == 0 || limit > 256 {
        return fail(ExecutionAttemptFailure::Configuration);
    }
    if let Some(step) = begin(history) {
        return step;
    }
    if history.len() == 1 {
        return Step::Perform(Statement::LockCollectingAttempts { maximum_rows: limit as i64 });
    }
    let rows = match &history[1] {
        Reply::CollectingAttempts(rows) => rows,
        _ => {
            return fail(ExecutionAttemptFailure::Query);
        },
    };
    let mut recovered: Vec<RecoveredCollectingBuildRequest> = Vec::new();
    let mut next: usize = 0;
    let mut place: usize = 2;
    assert(recovered@ =~= Seq::<RecoveredCollectingBuildRequest>::empty());
    while next < rows.len()
        invariant
            next <= rows@.len(),
            place <= history@.len(),
            collecting_step(
                rows@,
                0,
                2,
                Seq::empty(),
                maximum_path_bytes as nat,
                history@,
            ) == collecting_step(
                rows@,
                next as nat,
                place as int,
                recovered@,
                maximum_path_bytes as nat,
                history@,
            ),
            history@.len() >= 2,
            history@[1] matches Reply::CollectingAttempts(listed) && listed@ == rows@,
            history@[0] is Done,
            is_page(database_url@, limit),
        decreases rows@.len() - next,
    {
        let current = match decode_execution_attempt(&rows[next].0) {
            Ok(current) => current,
            Err(failure) => {
                return fail(failure);
            },
        };
        match hold_attempt(
            current,
            CapacityReservationPhase::Collecting,
            place,
            maximum_path_bytes,
            history,
        ) {
            Recovery::Performing(statement) => {
                assert(statement.settled() == statement);
                return Step::Perform(statement);
            },
            Recovery::Refused(failure) => {
                return fail(failure);
            },
            Recovery::Recovered(execution) => {
                match decode_local_backend_execution_result(&rows[next].1) {
                    Ok(backend_result) => {
                        recovered.push(
                            RecoveredCollectingBuildRequest { execution, backend_result },
                        );
                    },
                    Err(_) => {
                        return fail(ExecutionAttemptFailure::Query);
                    },
                }
                let length: usize = history.len();
                assert(place + 2 <= length);
                place += 2;
            },
        }
        next += 1;
    }
    commit(history, place, recovered)
}

/// What can be the matter with an attempt that failed.
pub open spec fn is_failure(classification: Seq<char>) -> bool {
    executor::is_classification(classification) && classification != "succeeded"@
}

/// How an attempt fails: in whatever phase it is together with its request, the reservation is
/// released, and attempt, outcome and request record the failure.
pub open spec fn failure_step(
    database_url: Seq<char>,
    attempt_id: String,
    classification: String,
    result_metadata: String,
    maximum_path_bytes: nat,
    history: Seq<Reply>,
) -> Step<CompletedBuildRequest, ExecutionAttemptError> {
    if text::is_blank(database_url) || !database::is_component(attempt_id@) || !is_failure(
        classification@,
    ) || crypto::json_is_object(result_metadata@) != Some(true) || text::byte_length(
        result_metadata@,
    ) > MAX_IPC_COMPONENT_BYTES {
        failed(ExecutionAttemptFailure::Configuration)
    } else if let Some(step) = begun(history) {
        step
    } else if history.len() == 1 {
        Step::Perform(Statement::LockAttempt { attempt_id })
    } else {
        match replied_attempt(
            history[1],
            ExecutionAttemptFailure::InvalidState,
            ExecutionAttemptFailure::Query,
        ) {
            Ok(current) => match phase_of(current.state) {
                Some(phase) => if history.len() == 2 {
                    Step::Perform(Statement::LockQueuedRequest { request_id: current.request_id })
                } else {
                    match replied_request(
                        history[2],
                        ExecutionAttemptFailure::InvalidState,
                        ExecutionAttemptFailure::Query,
                        maximum_path_bytes,
                    ) {
                        Ok(request) => if request.queue_state != phase.spec_queue_state() {
                            failed(ExecutionAttemptFailure::InvalidState)
                        } else {
                            completing_step(
                                attempt_id,
                                current.request_id,
                                phase,
                                "failed",
                                "failed",
                                Statement::InsertOutcome {
                                    attempt_id,
                                    classification,
                                    result_metadata,
                                },
                                3,
                                maximum_path_bytes,
                                history,
                            )
                        },
                        Err(failure) => failed(failure),
                    }
                },
                None => failed(ExecutionAttemptFailure::InvalidState),
            },
            Err(failure) => failed(failure),
        }
    }
}

/// How everything about an attempt ends that was found in a phase.
pub open spec fn completing_step(
    attempt_id: String,
    request_id: String,
    phase: CapacityReservationPhase,
    attempt_state: &'static str,
    queue_state: &'static str,
    insertion: Statement,
    place: int,
    maximum_path_bytes: nat,
    history: Seq<Reply>,
) -> Step<CompletedBuildRequest, ExecutionAttemptError> {
    if history.len() <= place {
        Step::Perform(Statement::ReleaseReservation { attempt_id, phase: phase.spec_name() })
    } else {
        match replied_reservation(
            history[place],
            ExecutionAttemptFailure::InvalidState,
            ExecutionAttemptFailure::Conflict,
        ) {
            Ok(reservation) => if history.len() == place + 1 {
                Step::Perform(
                    Statement::EndAttempt {
                        attempt_id,
                        from: phase.spec_name(),
                        to: attempt_state,
                    },
                )
            } else {
                match replied_attempt(
                    history[place + 1],
                    ExecutionAttemptFailure::Query,
                    ExecutionAttemptFailure::Query,
                ) {
                    Ok(attempt) => if history.len() == place + 2 {
                        Step::Perform(insertion)
                    } else {
                        match replied_outcome(
                            history[place + 2],
                            ExecutionAttemptFailure::Query,
                            ExecutionAttemptFailure::Conflict,
                        ) {
                            Ok(outcome) => if history.len() == place + 3 {
                                Step::Perform(
                                    Statement::MoveRequest {
                                        request_id,
                                        from: phase.spec_name(),
                                        to: queue_state,
                                    },
                                )
                            } else {
                                match replied_request(
                                    history[place + 3],
                                    ExecutionAttemptFailure::Query,
                                    ExecutionAttemptFailure::Query,
                                    maximum_path_bytes,
                                ) {
                                    Ok(request) => committed(
                                        history,
                                        place + 4,
                                        CompletedBuildRequest {
                                            request,
                                            attempt,
                                            outcome,
                                            reservation,
                                        },
                                    ),
                                    Err(failure) => failed(failure),
                                }
                            },
                            Err(failure) => failed(failure),
                        }
                    },
                    Err(failure) => failed(failure),
                }
            },
            Err(failure) => failed(failure),
        }
    }
}

fn complete_attempt(
    attempt_id: &String,
    request_id: &String,
    phase: CapacityReservationPhase,
    attempt_state: &'static str,
    queue_state: &'static str,
    insertion: Statement,
    place: usize,
    maximum_path_bytes: usize,
    history: &Vec<Reply>,
) -> (step: Step<CompletedBuildRequest, ExecutionAttemptError>)
    requires
        place < 100,
    ensures
        step == completing_step(
            *attempt_id,
            *request_id,
            phase,
            attempt_state,
            queue_state,
            insertion,
            place as int,
            maximum_path_bytes as nat,
            history@,
        ),
{
    if history.len() <= place {
        return Step::Perform(
            Statement::ReleaseReservation {
                attempt_id: attempt_id.clone(),
                phase: phase.as_str(),
            },
        );
    }
    let reservation = match reservation_in(
        &history[place],
        ExecutionAttemptFailure::InvalidState,
        ExecutionAttemptFailure::Conflict,
    ) {
        Ok(reservation) => reservation,
        Err(failure) => {
            return fail(failure);
        },
    };
    if history.len() == place + 1 {
        return Step::Perform(
            Statement::EndAttempt {
                attempt_id: attempt_id.clone(),
                from: phase.as_str(),
                to: attempt_state,
            },
        );
    }
    let attempt = match attempt_in(
        &history[place + 1],
        ExecutionAttemptFailure::Query,
        ExecutionAttemptFailure::Query,
    ) {
        Ok(attempt) => attempt,
        Err(failure) => {
            return fail(failure);
        },
    };
    if history.len() == place + 2 {
        return Step::Perform(insertion);
    }
    let outcome = match outcome_in(
        &history[place + 2],
        ExecutionAttemptFailure::Query,
        ExecutionAttemptFailure::Conflict,
    ) {
        Ok(outcome) => outcome,
        Err(failure) => {
            return fail(failure);
        },
    };
    if history.len() == place + 3 {
        return Step::Perform(
            Statement::MoveRequest {
                request_id: request_id.clone(),
                from: phase.as_str(),
                to: queue_state,
            },
        );
    }
    match request_in(
        &history[place + 3],
        ExecutionAttemptFailure::Query,
        ExecutionAttemptFailure::Query,
        maximum_path_bytes,
    ) {
        Ok(request) => commit(
            history,
            place + 4,
            CompletedBuildRequest { request, attempt, outcome, reservation },
        ),
        Err(failure) => fail(failure),
    }
}

/// Ends an attempt with a failure. The metadata is the compact text of a JSON object, as where an
/// attempt succeeds.
pub fn complete_execution_failure(
    database_url: &str,
    attempt_id: &String,
    classification: &String,
    result_metadata: &String,
    maximum_path_bytes: usize,
    history: &Vec<Reply>,
) -> (step: Step<CompletedBuildRequest, ExecutionAttemptError>)
    ensures
        step == failure_step(
            database_url@,
            *attempt_id,
            *classification,
            *result_metadata,
            maximum_path_bytes as nat,
            history@,
        ),
{
    let object = match crypto::json_object_text(result_metadata.as_str()) {
        Some(object) => object,
        None => false,
    };
    if text::blank(database_url) || !component(attempt_id.as_str()) || !known_classification(
        classification.as_str(),
    ) || text::same_text(classification.as_str(), "succeeded") || !object || text::length_in_bytes(
        result_metadata.as_str(),
    ) > MAX_IPC_COMPONENT_BYTES {
        return fail(ExecutionAttemptFailure::Configuration);
    }
    if let Some(step) = begin(history) {
        return step;
    }
    if history.len() == 1 {
        return Step::Perform(Statement::LockAttempt { attempt_id: attempt_id.clone() });
    }
    let current = match attempt_in(
        &history[1],
        ExecutionAttemptFailure::InvalidState,
        ExecutionAttemptFailure::Query,
    ) {
        Ok(current) => current,
        Err(failure) => {
            return fail(failure);
        },
    };
    let phase = match active_phase(current.state) {
        Some(phase) => phase,
        None => {
            return fail(ExecutionAttemptFailure::InvalidState);
        },
    };
    if history.len() == 2 {
        return Step::Perform(
            Statement::LockQueuedRequest { request_id: current.request_id.clone() },
        );
    }
    match request_in(
        &history[2],
        ExecutionAttemptFailure::InvalidState,
        ExecutionAttemptFailure::Query,
        maximum_path_bytes,
    ) {
        Ok(request) => {
            if request.queue_state != phase.queue_state() {
                return fail(ExecutionAttemptFailure::InvalidState);
            }
        },
        Err(failure) => {
            return fail(failure);
        },
    }
    complete_attempt(
        attempt_id,
        &current.request_id,
        phase,
        "failed",
        "failed",
        Statement::InsertOutcome {
            attempt_id: attempt_id.clone(),
            classification: classification.clone(),
            result_metadata: result_metadata.clone(),
        },
        3,
        maximum_path_bytes,
        history,
    )
}

/// How an attempt succeeds: while its outputs are collected, and only with leases on them.
pub open spec fn success_step(
    database_url: Seq<char>,
    attempt_id: String,
    result_metadata: String,
    maximum_path_bytes: nat,
    history: Seq<Reply>,
) -> Step<CompletedBuildRequest, ExecutionAttemptError> {
    if text::is_blank(database_url) || !database::is_component(attempt_id@) || !(
    crypto::json_object_size(result_metadata@) matches Some(Some(members)) && members > 0)
        || text::byte_length(result_metadata@) > MAX_IPC_COMPONENT_BYTES {
        failed(ExecutionAttemptFailure::Configuration)
    } else if let Some(step) = begun(history) {
        step
    } else if history.len() == 1 {
        Step::Perform(Statement::LockAttempt { attempt_id })
    } else {
        match replied_attempt(
            history[1],
            ExecutionAttemptFailure::InvalidState,
            ExecutionAttemptFailure::Query,
        ) {
            Ok(current) => if current.state != ExecutionAttemptState::Collecting {
                failed(ExecutionAttemptFailure::InvalidState)
            } else if history.len() == 2 {
                Step::Perform(Statement::LockQueuedRequest { request_id: current.request_id })
            } else {
                match replied_request(
                    history[2],
                    ExecutionAttemptFailure::InvalidState,
                    ExecutionAttemptFailure::Query,
                    maximum_path_bytes,
                ) {
                    Ok(request) => if request.queue_state != BuildQueueState::Collecting {
                        failed(ExecutionAttemptFailure::InvalidState)
                    } else if history.len() == 3 {
                        Step::Perform(
                            Statement::CountOutputLeases { request_id: current.request_id },
                        )
                    } else {
                        match history[3] {
                            Reply::Count(leases) => if leases == 0 {
                                failed(ExecutionAttemptFailure::InvalidState)
                            } else {
                                completing_step(
                                    attempt_id,
                                    current.request_id,
                                    CapacityReservationPhase::Collecting,
                                    "succeeded",
                                    "completed",
                                    Statement::InsertSuccess { attempt_id, result_metadata },
                                    4,
                                    maximum_path_bytes,
                                    history,
                                )
                            },
                            _ => failed(ExecutionAttemptFailure::Query),
                        }
                    },
                    Err(failure) => failed(failure),
                }
            },
            Err(failure) => failed(failure),
        }
    }
}

/// Ends an attempt with success. The metadata is the compact text of a JSON object, with nothing
/// between its parts but commas and colons, and that text is what is measured.
pub fn complete_execution_success(
    database_url: &str,
    attempt_id: &String,
    result_metadata: &String,
    maximum_path_bytes: usize,
    history: &Vec<Reply>,
) -> (step: Step<CompletedBuildRequest, ExecutionAttemptError>)
    ensures
        step == success_step(
            database_url@,
            *attempt_id,
            *result_metadata,
            maximum_path_bytes as nat,
            history@,
        ),
{
    let filled = match crypto::json_members(result_metadata.as_str()) {
        Some(Some(members)) => members > 0,
        _ => false,
    };
    if text::blank(database_url) || !component(attempt_id.as_str()) || !filled
        || text::length_in_bytes(result_metadata.as_str()) > MAX_IPC_COMPONENT_BYTES {
        return fail(ExecutionAttemptFailure::Configuration);
    }
    if let Some(step) = begin(history) {
        return step;
    }
    if history.len() == 1 {
        return Step::Perform(Statement::LockAttempt { attempt_id: attempt_id.clone() });
    }
    let current = match attempt_in(
        &history[1],
        ExecutionAttemptFailure::InvalidState,
        ExecutionAttemptFailure::Query,
    ) {
        Ok(current) => current,
        Err(failure) => {
            return fail(failure);
        },
    };
    if current.state != ExecutionAttemptState::Collecting {
        return fail(ExecutionAttemptFailure::InvalidState);
    }
    if history.len() == 2 {
        return Step::Perform(
            Statement::LockQueuedRequest { request_id: current.request_id.clone() },
        );
    }
    match request_in(
        &history[2],
        ExecutionAttemptFailure::InvalidState,
        ExecutionAttemptFailure::Query,
        maximum_path_bytes,
    ) {
        Ok(request) => {
            if request.queue_state != BuildQueueState::Collecting {
                return fail(ExecutionAttemptFailure::InvalidState);
            }
        },
        Err(failure) => {
            return fail(failure);
        },
    }
    if history.len() == 3 {
        return Step::Perform(
            Statement::CountOutputLeases { request_id: current.request_id.clone() },
        );
    }
    match &history[3] {
        Reply::Count(leases) => {
            if *leases == 0 {
                return fail(ExecutionAttemptFailure::InvalidState);
            }
        },
        _ => {
            return fail(ExecutionAttemptFailure::Query);
        },
    }
    complete_attempt(
        attempt_id,
        &current.request_id,
        CapacityReservationPhase::Collecting,
        "succeeded",
        "completed",
        Statement::InsertSuccess {
            attempt_id: attempt_id.clone(),
            result_metadata: result_metadata.clone(),
        },
        4,
        maximum_path_bytes,
        history,
    )
}

/// An attempt that ended, or that was fenced, is never ended again: nothing is written for it.
pub proof fn attempt_ends_once(
    database_url: Seq<char>,
    attempt_id: String,
    classification: String,
    result_metadata: String,
    maximum_path_bytes: nat,
    history: Seq<Reply>,
)
    requires
        history.len() >= 2,
        replied_attempt(
            history[1],
            ExecutionAttemptFailure::InvalidState,
            ExecutionAttemptFailure::Query,
        ) matches Ok(attempt) && phase_of(attempt.state) is None,
    ensures
        failure_step(
            database_url,
            attempt_id,
            classification,
            result_metadata,
            maximum_path_bytes,
            history,
        ) is Finish,
        success_step(database_url, attempt_id, result_metadata, maximum_path_bytes, history)
            is Finish,
{
}

/// An attempt only succeeds while its outputs are collected and held by leases, and its capacity
/// is released before the success is recorded.
pub proof fn success_needs_held_outputs(
    database_url: Seq<char>,
    attempt_id: String,
    result_metadata: String,
    maximum_path_bytes: nat,
    history: Seq<Reply>,
)
    requires
        success_step(
            database_url,
            attempt_id,
            result_metadata,
            maximum_path_bytes,
            history,
        ) matches Step::Perform(Statement::EndAttempt { .. }),
    ensures
        replied_attempt(
            history[1],
            ExecutionAttemptFailure::InvalidState,
            ExecutionAttemptFailure::Query,
        ) matches Ok(attempt) && attempt.state == ExecutionAttemptState::Collecting,
        history[3] matches Reply::Count(leases) && leases != 0,
        replied_reservation(
            history[4],
            ExecutionAttemptFailure::InvalidState,
            ExecutionAttemptFailure::Conflict,
        ) is Ok,
{
}

} // verus!
