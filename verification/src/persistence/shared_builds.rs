//! Builds that requests share: each derivation is claimed once, queued, run, collected and ended,
//! and whoever asks for it meanwhile joins.

use crate::backend::{
    BackendCapabilities, CancellationCapability, CapabilityTable, ExecutionRecovery, LogRecovery,
};
use crate::crypto;
use crate::persistence::database::{
    self, bounded, component, copy_list, copy_option, digest, Digest, Moment,
    QueueEntryRow, Reply, RequestedBuild, SharedAttemptRow, SharedBuildRow, SharedOutcomeRow,
    Statement, Step, WorkerLimits,
};
use crate::service::config::model::BackendKind;
use crate::service::ipc::{MAX_IPC_COMPONENT_BYTES, MAX_IPC_CREDENTIAL_ID_BYTES};
use crate::text;
use crate::time::Span;
use vstd::prelude::*;

verus! {

/// Why an operation on shared builds failed.
#[derive(Clone, Copy, Debug, PartialEq, Eq, Structural)]
pub enum SharedBuildFailure {
    Configuration,
    Connection,
    Conflict,
    InvalidState,
    Quota,
    Query,
    Commit,
}

impl SharedBuildFailure {
    pub open spec fn name(self) -> Seq<char> {
        match self {
            SharedBuildFailure::Configuration => "configuration"@,
            SharedBuildFailure::Connection => "connection"@,
            SharedBuildFailure::Conflict => "conflict"@,
            SharedBuildFailure::InvalidState => "invalid_state"@,
            SharedBuildFailure::Quota => "quota"@,
            SharedBuildFailure::Query => "query"@,
            SharedBuildFailure::Commit => "commit"@,
        }
    }

    pub fn as_str(self) -> (name: &'static str)
        ensures
            name@ == self.name(),
    {
        match self {
            SharedBuildFailure::Configuration => "configuration",
            SharedBuildFailure::Connection => "connection",
            SharedBuildFailure::Conflict => "conflict",
            SharedBuildFailure::InvalidState => "invalid_state",
            SharedBuildFailure::Quota => "quota",
            SharedBuildFailure::Query => "query",
            SharedBuildFailure::Commit => "commit",
        }
    }
}

/// A failure of an operation on shared builds.
#[derive(Clone, Copy, Debug, PartialEq, Eq, Structural)]
pub struct SharedBuildError(pub SharedBuildFailure);

impl SharedBuildError {
    pub fn failure(&self) -> (failure: SharedBuildFailure)
        ensures
            failure == self.0,
    {
        self.0
    }

    pub fn message(&self) -> (message: &'static str)
        ensures
            message@ == "shared build state operation failed"@,
    {
        "shared build state operation failed"
    }
}

/// How far a build is.
#[derive(Clone, Copy, Debug, PartialEq, Eq, Structural)]
pub enum SharedBuildState {
    Claimed,
    Running,
    Collecting,
    Succeeded,
    Failed,
}

impl SharedBuildState {
    pub open spec fn named(name: Seq<char>) -> Option<Self> {
        if name == "claimed"@ {
            Some(SharedBuildState::Claimed)
        } else if name == "running"@ {
            Some(SharedBuildState::Running)
        } else if name == "collecting"@ {
            Some(SharedBuildState::Collecting)
        } else if name == "succeeded"@ {
            Some(SharedBuildState::Succeeded)
        } else if name == "failed"@ {
            Some(SharedBuildState::Failed)
        } else {
            None
        }
    }

    pub fn parse(name: &str) -> (found: Option<Self>)
        ensures
            found == Self::named(name@),
    {
        if text::same_text(name, "claimed") {
            Some(SharedBuildState::Claimed)
        } else if text::same_text(name, "running") {
            Some(SharedBuildState::Running)
        } else if text::same_text(name, "collecting") {
            Some(SharedBuildState::Collecting)
        } else if text::same_text(name, "succeeded") {
            Some(SharedBuildState::Succeeded)
        } else if text::same_text(name, "failed") {
            Some(SharedBuildState::Failed)
        } else {
            None
        }
    }
}

/// How far an attempt at a build is.
#[derive(Clone, Copy, Debug, PartialEq, Eq, Structural)]
pub enum SharedBuildAttemptState {
    Running,
    Collecting,
    Succeeded,
    Failed,
}

impl SharedBuildAttemptState {
    pub open spec fn named(name: Seq<char>) -> Option<Self> {
        if name == "running"@ {
            Some(SharedBuildAttemptState::Running)
        } else if name == "collecting"@ {
            Some(SharedBuildAttemptState::Collecting)
        } else if name == "succeeded"@ {
            Some(SharedBuildAttemptState::Succeeded)
        } else if name == "failed"@ {
            Some(SharedBuildAttemptState::Failed)
        } else {
            None
        }
    }

    pub fn parse(name: &str) -> (found: Option<Self>)
        ensures
            found == Self::named(name@),
    {
        if text::same_text(name, "running") {
            Some(SharedBuildAttemptState::Running)
        } else if text::same_text(name, "collecting") {
            Some(SharedBuildAttemptState::Collecting)
        } else if text::same_text(name, "succeeded") {
            Some(SharedBuildAttemptState::Succeeded)
        } else if text::same_text(name, "failed") {
            Some(SharedBuildAttemptState::Failed)
        } else {
            None
        }
    }
}

/// Whether a build was claimed or joined.
#[derive(Clone, Copy, Debug, PartialEq, Eq, Structural)]
pub enum SharedBuildOwnership {
    Claimed,
    Joined,
}

/// What builds are held to.
#[derive(Clone, Copy, Debug, PartialEq, Eq, Structural)]
pub struct SharedBuildRules {
    pub limits: WorkerLimits,
    pub capabilities: CapabilityTable,
}

/// A build as it is recorded.
#[derive(Clone, Debug)]
pub struct SharedBuild {
    pub derivation_path: String,
    pub request_digest: Digest,
    pub state: SharedBuildState,
    pub backend_name: String,
    pub backend_kind: BackendKind,
    pub capabilities: BackendCapabilities,
    pub backend_execution_id: Option<String>,
    pub expected_outputs: Vec<String>,
    pub build_request: Option<RequestedBuild>,
    pub result_metadata: Option<String>,
    pub failure_classification: Option<String>,
    pub created_at: Moment,
    pub started_at: Option<Moment>,
    pub collecting_at: Option<Moment>,
    pub completed_at: Option<Moment>,
    pub expires_at: Option<Moment>,
}

/// A request, where there is one, with its list told apart by what it holds alone.
pub open spec fn settled_request(request: Option<RequestedBuild>) -> Option<RequestedBuild> {
    match request {
        Some(request) => Some(request.settled()),
        None => None,
    }
}

impl SharedBuild {
    /// The build with its lists told apart by what they hold alone.
    pub open spec fn settled(self) -> SharedBuild {
        SharedBuild {
            expected_outputs: database::list_of(self.expected_outputs@),
            build_request: settled_request(self.build_request),
            ..self
        }
    }
}

/// A build with what became of the claim on it.
#[derive(Clone, Debug)]
pub struct SharedBuildClaim {
    pub ownership: SharedBuildOwnership,
    pub build: SharedBuild,
}

/// A build that waits.
#[derive(Clone, Debug)]
pub struct SharedBuildQueueEntry {
    pub derivation_path: String,
    pub quota_subject: String,
    pub queue_position: i64,
    pub queued_at: Moment,
}

#[derive(Clone, Copy, Debug, PartialEq, Eq, Structural)]
pub struct SharedBuildOperationalCounts {
    pub queued: u64,
    pub running: u64,
    pub collecting: u64,
}

/// An attempt at a build as it is recorded.
#[derive(Clone, Debug)]
pub struct SharedBuildAttempt {
    pub attempt_id: i64,
    pub derivation_path: String,
    pub ordinal: i32,
    pub backend_name: String,
    pub backend_kind: BackendKind,
    pub backend_execution_id: Option<String>,
    pub state: SharedBuildAttemptState,
    pub created_at: Moment,
    pub started_at: Option<Moment>,
    pub collecting_at: Option<Moment>,
    pub completed_at: Option<Moment>,
}

/// How an attempt ended; the metadata is a JSON object.
#[derive(Clone, Debug)]
pub struct SharedBuildAttemptOutcome {
    pub attempt_id: i64,
    pub classification: String,
    pub result_metadata: String,
    pub created_at: Moment,
}

/// A text that is not empty, has at most so many bytes, and no zero character.
pub open spec fn is_plain(value: Seq<char>, maximum: nat) -> bool {
    database::is_bounded(value, maximum) && !value.contains('\0')
}

fn plain(value: &str, maximum: usize) -> (valid: bool)
    ensures
        valid == is_plain(value@, maximum as nat),
{
    bounded(value, maximum) && !text::contains_character(value, '\0')
}

/// There is a database to ask, and the path of the derivation is in bounds.
pub open spec fn identity_valid(
    database_url: Seq<char>,
    derivation_path: Seq<char>,
    rules: SharedBuildRules,
) -> bool {
    !text::is_blank(database_url) && is_plain(
        derivation_path,
        rules.limits.maximum_store_path_bytes as nat,
    )
}

fn valid_identity(
    database_url: &str,
    derivation_path: &str,
    rules: &SharedBuildRules,
) -> (valid: bool)
    ensures
        valid == identity_valid(database_url@, derivation_path@, *rules),
{
    !text::blank(database_url) && plain(derivation_path, rules.limits.maximum_store_path_bytes)
}

/// Whoever quotas are counted for.
pub open spec fn is_subject(quota_subject: Seq<char>) -> bool {
    is_plain(quota_subject, MAX_IPC_CREDENTIAL_ID_BYTES as nat)
}

/// Outputs that a build is expected to have: between one and 64, each once.
pub open spec fn are_outputs(outputs: Seq<String>, maximum_path_bytes: nat) -> bool {
    &&& 1 <= outputs.len() <= 64
    &&& forall|i: int|
        0 <= i < outputs.len() ==> is_plain((#[trigger] outputs[i])@, maximum_path_bytes)
    &&& forall|i: int, j: int|
        0 <= i < j < outputs.len() ==> (#[trigger] outputs[i])@ != (#[trigger] outputs[j])@
}

fn outputs_valid(outputs: &Vec<String>, maximum_path_bytes: usize) -> (valid: bool)
    ensures
        valid == are_outputs(outputs@, maximum_path_bytes as nat),
{
    if outputs.len() == 0 || outputs.len() > 64 {
        return false;
    }
    let mut i: usize = 0;
    while i < outputs.len()
        invariant
            i <= outputs@.len(),
            forall|k: int|
                0 <= k < i ==> is_plain((#[trigger] outputs@[k])@, maximum_path_bytes as nat),
            forall|k: int, l: int|
                0 <= k < l < i ==> (#[trigger] outputs@[k])@ != (#[trigger] outputs@[l])@,
        decreases outputs@.len() - i,
    {
        if !plain(outputs[i].as_str(), maximum_path_bytes) {
            assert(!is_plain(outputs@[i as int]@, maximum_path_bytes as nat));
            return false;
        }
        let mut j: usize = 0;
        while j < i
            invariant
                j <= i,
                i < outputs@.len(),
                forall|k: int| 0 <= k < j ==> (#[trigger] outputs@[k])@ != outputs@[i as int]@,
            decreases i - j,
        {
            if text::same_text(outputs[j].as_str(), outputs[i].as_str()) {
                assert(outputs@[j as int]@ == outputs@[i as int]@);
                return false;
            }
            j += 1;
        }
        i += 1;
    }
    true
}

/// The name of an execution, where there is one, is in bounds.
pub open spec fn is_execution(execution: Option<String>, maximum_path_bytes: nat) -> bool {
    match execution {
        Some(id) => is_plain(id@, maximum_path_bytes),
        None => true,
    }
}

/// What a build is claimed with fits together: its backend can do what its kind can, and has an
/// execution where executions outlive the service.
pub open spec fn is_claim(
    derivation_path: Seq<char>,
    digest_bytes: nat,
    backend_name: Seq<char>,
    backend_kind: BackendKind,
    capabilities: BackendCapabilities,
    backend_execution_id: Option<String>,
    expected_outputs: Seq<String>,
    rules: SharedBuildRules,
) -> bool {
    let maximum = rules.limits.maximum_store_path_bytes as nat;
    &&& is_plain(derivation_path, maximum)
    &&& digest_bytes == 32
    &&& is_plain(backend_name, MAX_IPC_COMPONENT_BYTES as nat)
    &&& capabilities == rules.capabilities.of_kind(backend_kind)
    &&& is_execution(backend_execution_id, maximum)
    &&& capabilities.execution_recovery == ExecutionRecovery::Adoptable ==> backend_execution_id
        is Some
    &&& are_outputs(expected_outputs, maximum)
}

fn claim_valid(
    derivation_path: &str,
    digest_bytes: usize,
    backend_name: &str,
    backend_kind: BackendKind,
    capabilities: BackendCapabilities,
    backend_execution_id: &Option<String>,
    expected_outputs: &Vec<String>,
    rules: &SharedBuildRules,
) -> (valid: bool)
    ensures
        valid == is_claim(
            derivation_path@,
            digest_bytes as nat,
            backend_name@,
            backend_kind,
            capabilities,
            *backend_execution_id,
            expected_outputs@,
            *rules,
        ),
{
    let maximum: usize = rules.limits.maximum_store_path_bytes;
    let execution = match backend_execution_id {
        Some(id) => plain(id.as_str(), maximum),
        None => capabilities.execution_recovery != ExecutionRecovery::Adoptable,
    };
    plain(derivation_path, maximum) && digest_bytes == 32 && plain(
        backend_name,
        MAX_IPC_COMPONENT_BYTES,
    ) && capabilities == rules.capabilities.capabilities(backend_kind) && execution
        && outputs_valid(expected_outputs, maximum)
}

/// What was asked to be built is what is claimed.
pub open spec fn request_fits(
    request: RequestedBuild,
    derivation_path: Seq<char>,
    request_digest: Seq<u8>,
    expected_outputs: Seq<String>,
) -> bool {
    &&& request.executable
    &&& request.derivation_path@ == derivation_path
    &&& request.digest@ == request_digest
    &&& crypto::texts_of(request.output_paths@) == crypto::texts_of(expected_outputs)
}

/// Compares two lists of texts.
fn same_lists(left: &Vec<String>, right: &Vec<String>) -> (same: bool)
    ensures
        same == (crypto::texts_of(left@) == crypto::texts_of(right@)),
{
    if left.len() != right.len() {
        assert(crypto::texts_of(left@).len() != crypto::texts_of(right@).len());
        return false;
    }
    let mut i: usize = 0;
    while i < left.len()
        invariant
            i <= left@.len(),
            left@.len() == right@.len(),
            forall|j: int| 0 <= j < i ==> (#[trigger] left@[j])@ == right@[j]@,
        decreases left@.len() - i,
    {
        if !text::same_text(left[i].as_str(), right[i].as_str()) {
            assert(crypto::texts_of(left@)[i as int] != crypto::texts_of(right@)[i as int]);
            return false;
        }
        i += 1;
    }
    assert(crypto::texts_of(left@) =~= crypto::texts_of(right@));
    true
}

fn fitting_request(
    request: &RequestedBuild,
    derivation_path: &str,
    request_digest: &[u8],
    expected_outputs: &Vec<String>,
) -> (fits: bool)
    ensures
        fits == request_fits(
            *request,
            derivation_path@,
            request_digest@,
            expected_outputs@,
        ),
{
    request.executable && text::same_text(request.derivation_path.as_str(), derivation_path)
        && text::same_bytes(request.digest.as_slice(), request_digest) && same_lists(
        &request.output_paths,
        expected_outputs,
    )
}

/// A build that ended has metadata, and a classification exactly where it failed; one that did not
/// end has neither, nor a moment of completion or expiry.
pub open spec fn ending_fits(state: SharedBuildState, row: SharedBuildRow) -> bool {
    &&& row.result_metadata is Some ==> crypto::json_is_object(row.result_metadata->0@) == Some(
        true,
    )
    &&& row.failure_classification is Some ==> database::is_component(
        row.failure_classification->0@,
    )
    &&& match state {
        SharedBuildState::Succeeded => row.result_metadata is Some && row.failure_classification
            is None,
        SharedBuildState::Failed => row.result_metadata is Some && row.failure_classification
            is Some,
        _ => row.result_metadata is None && row.failure_classification is None && row.completed_at
            is None && row.expires_at is None,
    }
}

fn fitting_ending(state: SharedBuildState, row: &SharedBuildRow) -> (fits: bool)
    ensures
        fits == ending_fits(state, *row),
{
    let metadata = match &row.result_metadata {
        Some(text) => match crypto::json_object_text(text.as_str()) {
            Some(object) => object,
            None => false,
        },
        None => true,
    };
    let classification = match &row.failure_classification {
        Some(text) => component(text.as_str()),
        None => true,
    };
    metadata && classification && match state {
        SharedBuildState::Succeeded => row.result_metadata.is_some()
            && row.failure_classification.is_none(),
        SharedBuildState::Failed => row.result_metadata.is_some()
            && row.failure_classification.is_some(),
        _ => row.result_metadata.is_none() && row.failure_classification.is_none()
            && row.completed_at.is_none() && row.expires_at.is_none(),
    }
}

/// What a row says that its backend can do.
pub open spec fn recorded_capabilities(row: SharedBuildRow) -> Option<BackendCapabilities> {
    match (
        ExecutionRecovery::named(row.execution_recovery@),
        CancellationCapability::named(row.cancellation@),
        LogRecovery::named(row.log_recovery@),
    ) {
        (Some(execution_recovery), Some(cancellation), Some(log_recovery)) => Some(
            BackendCapabilities { execution_recovery, cancellation, log_recovery },
        ),
        _ => None,
    }
}

fn capabilities_in(row: &SharedBuildRow) -> (capabilities: Option<BackendCapabilities>)
    ensures
        capabilities == recorded_capabilities(*row),
{
    match (
        ExecutionRecovery::parse(row.execution_recovery.as_str()),
        CancellationCapability::parse(row.cancellation.as_str()),
        LogRecovery::parse(row.log_recovery.as_str()),
    ) {
        (Some(execution_recovery), Some(cancellation), Some(log_recovery)) => Some(
            BackendCapabilities::new(execution_recovery, cancellation, log_recovery),
        ),
        _ => None,
    }
}

/// The columns of a row fit together as those of a build in a state.
pub open spec fn is_build_row(
    row: SharedBuildRow,
    kind: BackendKind,
    capabilities: BackendCapabilities,
    state: SharedBuildState,
    rules: SharedBuildRules,
) -> bool {
    &&& is_claim(
        row.derivation_path@,
        row.request_digest@.len(),
        row.backend_name@,
        kind,
        capabilities,
        row.backend_execution_id,
        row.expected_outputs@,
        rules,
    )
    &&& match row.build_request {
        Some(request) => request_fits(
            request,
            row.derivation_path@,
            row.request_digest@,
            row.expected_outputs@,
        ),
        None => true,
    }
    &&& ending_fits(state, row)
}

/// The build that a row records; `None` where the row is inconsistent.
pub open spec fn build_of(row: SharedBuildRow, rules: SharedBuildRules) -> Option<SharedBuild> {
    match (
        BackendKind::named(row.backend_kind@),
        recorded_capabilities(row),
        SharedBuildState::named(row.state@),
    ) {
        (Some(kind), Some(capabilities), Some(state)) => if is_build_row(
            row,
            kind,
            capabilities,
            state,
            rules,
        ) {
            Some(
                SharedBuild {
                    derivation_path: row.derivation_path,
                    request_digest: database::digest_of(row.request_digest@),
                    state,
                    backend_name: row.backend_name,
                    backend_kind: kind,
                    capabilities,
                    backend_execution_id: row.backend_execution_id,
                    expected_outputs: database::list_of(row.expected_outputs@),
                    build_request: settled_request(row.build_request),
                    result_metadata: row.result_metadata,
                    failure_classification: row.failure_classification,
                    created_at: row.created_at,
                    started_at: row.started_at,
                    collecting_at: row.collecting_at,
                    completed_at: row.completed_at,
                    expires_at: row.expires_at,
                },
            )
        } else {
            None
        },
        _ => None,
    }
}

fn copy_request(request: &Option<RequestedBuild>) -> (copied: Option<RequestedBuild>)
    ensures
        settled_request(copied) == settled_request(*request),
{
    match request {
        Some(request) => Some(request.copy()),
        None => None,
    }
}

/// Reads a row; one that is inconsistent is a failed query.
pub fn decode_shared_build(row: &SharedBuildRow, rules: &SharedBuildRules) -> (build: Result<
    SharedBuild,
    SharedBuildFailure,
>)
    ensures
        match build {
            Ok(read) => build_of(*row, *rules) == Some(read.settled()),
            Err(failure) => build_of(*row, *rules) is None && failure == SharedBuildFailure::Query,
        },
{
    let request_digest = match digest(row.request_digest.as_slice()) {
        Some(request_digest) => request_digest,
        None => {
            return Err(SharedBuildFailure::Query);
        },
    };
    let backend_kind = match BackendKind::parse(row.backend_kind.as_str()) {
        Some(kind) => kind,
        None => {
            return Err(SharedBuildFailure::Query);
        },
    };
    let capabilities = match capabilities_in(row) {
        Some(capabilities) => capabilities,
        None => {
            return Err(SharedBuildFailure::Query);
        },
    };
    if !claim_valid(
        row.derivation_path.as_str(),
        row.request_digest.len(),
        row.backend_name.as_str(),
        backend_kind,
        capabilities,
        &row.backend_execution_id,
        &row.expected_outputs,
        rules,
    ) {
        return Err(SharedBuildFailure::Query);
    }
    let state = match SharedBuildState::parse(row.state.as_str()) {
        Some(state) => state,
        None => {
            return Err(SharedBuildFailure::Query);
        },
    };
    if let Some(request) = &row.build_request {
        if !fitting_request(
            request,
            row.derivation_path.as_str(),
            row.request_digest.as_slice(),
            &row.expected_outputs,
        ) {
            return Err(SharedBuildFailure::Query);
        }
    }
    if !fitting_ending(state, row) {
        return Err(SharedBuildFailure::Query);
    }
    Ok(
        SharedBuild {
            derivation_path: row.derivation_path.clone(),
            request_digest,
            state,
            backend_name: row.backend_name.clone(),
            backend_kind,
            capabilities,
            backend_execution_id: copy_option(&row.backend_execution_id),
            expected_outputs: copy_list(&row.expected_outputs),
            build_request: copy_request(&row.build_request),
            result_metadata: copy_option(&row.result_metadata),
            failure_classification: copy_option(&row.failure_classification),
            created_at: row.created_at,
            started_at: row.started_at,
            collecting_at: row.collecting_at,
            completed_at: row.completed_at,
            expires_at: row.expires_at,
        },
    )
}

/// The attempt that a row records; `None` where its kind or state is unknown.
pub open spec fn attempt_of(row: SharedAttemptRow) -> Option<SharedBuildAttempt> {
    match (BackendKind::named(row.backend_kind@), SharedBuildAttemptState::named(row.state@)) {
        (Some(backend_kind), Some(state)) => Some(
            SharedBuildAttempt {
                attempt_id: row.attempt_id,
                derivation_path: row.derivation_path,
                ordinal: row.ordinal,
                backend_name: row.backend_name,
                backend_kind,
                backend_execution_id: row.backend_execution_id,
                state,
                created_at: row.created_at,
                started_at: row.started_at,
                collecting_at: row.collecting_at,
                completed_at: row.completed_at,
            },
        ),
        _ => None,
    }
}

/// Reads a row of an attempt; one that is inconsistent is a failed query.
pub fn decode_shared_build_attempt(row: &SharedAttemptRow) -> (attempt: Result<
    SharedBuildAttempt,
    SharedBuildFailure,
>)
    ensures
        match attempt_of(*row) {
            Some(recorded) => attempt == Ok::<SharedBuildAttempt, SharedBuildFailure>(recorded),
            None => attempt == Err::<SharedBuildAttempt, SharedBuildFailure>(
                SharedBuildFailure::Query,
            ),
        },
{
    let backend_kind = match BackendKind::parse(row.backend_kind.as_str()) {
        Some(kind) => kind,
        None => {
            return Err(SharedBuildFailure::Query);
        },
    };
    let state = match SharedBuildAttemptState::parse(row.state.as_str()) {
        Some(state) => state,
        None => {
            return Err(SharedBuildFailure::Query);
        },
    };
    Ok(
        SharedBuildAttempt {
            attempt_id: row.attempt_id,
            derivation_path: row.derivation_path.clone(),
            ordinal: row.ordinal,
            backend_name: row.backend_name.clone(),
            backend_kind,
            backend_execution_id: copy_option(&row.backend_execution_id),
            state,
            created_at: row.created_at,
            started_at: row.started_at,
            collecting_at: row.collecting_at,
            completed_at: row.completed_at,
        },
    )
}

/// The outcome that a row records; `None` where its metadata is no object.
pub open spec fn outcome_of(row: SharedOutcomeRow) -> Option<SharedBuildAttemptOutcome> {
    if crypto::json_is_object(row.result_metadata@) == Some(true) {
        Some(
            SharedBuildAttemptOutcome {
                attempt_id: row.attempt_id,
                classification: row.classification,
                result_metadata: row.result_metadata,
                created_at: row.created_at,
            },
        )
    } else {
        None
    }
}

/// Reads a row of an outcome; one that is inconsistent is a failed query.
pub fn decode_shared_build_attempt_outcome(row: &SharedOutcomeRow) -> (outcome: Result<
    SharedBuildAttemptOutcome,
    SharedBuildFailure,
>)
    ensures
        match outcome_of(*row) {
            Some(recorded) => outcome == Ok::<SharedBuildAttemptOutcome, SharedBuildFailure>(
                recorded,
            ),
            None => outcome == Err::<SharedBuildAttemptOutcome, SharedBuildFailure>(
                SharedBuildFailure::Query,
            ),
        },
{
    match crypto::json_object_text(row.result_metadata.as_str()) {
        Some(true) => Ok(
            SharedBuildAttemptOutcome {
                attempt_id: row.attempt_id,
                classification: row.classification.clone(),
                result_metadata: row.result_metadata.clone(),
                created_at: row.created_at,
            },
        ),
        _ => Err(SharedBuildFailure::Query),
    }
}

/// The entry that a row records; `None` where it is out of bounds.
pub open spec fn entry_of(row: QueueEntryRow) -> Option<SharedBuildQueueEntry> {
    if row.derivation_path@.len() > 0 && row.quota_subject@.len() > 0 && row.queue_position > 0 {
        Some(
            SharedBuildQueueEntry {
                derivation_path: row.derivation_path,
                quota_subject: row.quota_subject,
                queue_position: row.queue_position,
                queued_at: row.queued_at,
            },
        )
    } else {
        None
    }
}

/// Reads a row of the queue; one that is out of bounds is a failed query.
pub fn decode_shared_build_queue_entry(row: &QueueEntryRow) -> (entry: Result<
    SharedBuildQueueEntry,
    SharedBuildFailure,
>)
    ensures
        match entry_of(*row) {
            Some(recorded) => entry == Ok::<SharedBuildQueueEntry, SharedBuildFailure>(recorded),
            None => entry == Err::<SharedBuildQueueEntry, SharedBuildFailure>(
                SharedBuildFailure::Query,
            ),
        },
{
    if row.derivation_path.as_str().is_empty() || row.quota_subject.as_str().is_empty()
        || row.queue_position <= 0 {
        return Err(SharedBuildFailure::Query);
    }
    Ok(
        SharedBuildQueueEntry {
            derivation_path: row.derivation_path.clone(),
            quota_subject: row.quota_subject.clone(),
            queue_position: row.queue_position,
            queued_at: row.queued_at,
        },
    )
}

/// The entries that rows record; `None` where one of them is out of bounds.
pub open spec fn entries_of(rows: Seq<QueueEntryRow>) -> Option<Seq<SharedBuildQueueEntry>> {
    if forall|i: int| 0 <= i < rows.len() ==> entry_of(#[trigger] rows[i]) is Some {
        Some(rows.map_values(|row: QueueEntryRow| entry_of(row)->0))
    } else {
        None
    }
}

fn decode_entries(rows: &Vec<QueueEntryRow>) -> (entries: Option<Vec<SharedBuildQueueEntry>>)
    ensures
        match entries {
            Some(decoded) => entries_of(rows@) == Some(decoded@),
            None => entries_of(rows@) is None,
        },
{
    let mut decoded: Vec<SharedBuildQueueEntry> = Vec::new();
    let mut i: usize = 0;
    while i < rows.len()
        invariant
            i <= rows@.len(),
            decoded@.len() == i,
            forall|j: int| 0 <= j < i ==> entry_of(#[trigger] rows@[j]) == Some(decoded@[j]),
        decreases rows@.len() - i,
    {
        match decode_shared_build_queue_entry(&rows[i]) {
            Ok(entry) => decoded.push(entry),
            Err(_) => {
                assert(entry_of(rows@[i as int]) is None);
                return None;
            },
        }
        i += 1;
    }
    assert(decoded@ =~= rows@.map_values(|row: QueueEntryRow| entry_of(row)->0));
    Some(decoded)
}

pub open spec fn failed<T>(failure: SharedBuildFailure) -> Step<T, SharedBuildError> {
    Step::Finish(Err(SharedBuildError(failure)))
}

fn fail<T>(failure: SharedBuildFailure) -> (step: Step<T, SharedBuildError>)
    ensures
        step == failed::<T>(failure),
{
    Step::Finish(Err(SharedBuildError(failure)))
}

pub open spec fn begun<T>(history: Seq<Reply>) -> Option<Step<T, SharedBuildError>> {
    database::begun(history, SharedBuildError(SharedBuildFailure::Connection))
}

fn begin<T>(history: &Vec<Reply>) -> (step: Option<Step<T, SharedBuildError>>)
    ensures
        step == begun::<T>(history@),
{
    database::begin(history, SharedBuildError(SharedBuildFailure::Connection))
}

pub open spec fn committed<T>(history: Seq<Reply>, place: int, value: T) -> Step<T, SharedBuildError> {
    database::committed(history, place, value, SharedBuildError(SharedBuildFailure::Commit))
}

fn commit<T>(history: &Vec<Reply>, place: usize, value: T) -> (step: Step<T, SharedBuildError>)
    ensures
        step == committed(history@, place as int, value),
{
    database::commit(history, place, value, SharedBuildError(SharedBuildFailure::Commit))
}

/// A step towards a build, with its lists told apart by what they hold alone.
pub open spec fn settled_build(step: Step<SharedBuild, SharedBuildError>) -> Step<
    SharedBuild,
    SharedBuildError,
> {
    match step {
        Step::Perform(statement) => Step::Perform(statement),
        Step::Finish(Ok(build)) => Step::Finish(Ok(build.settled())),
        Step::Finish(Err(error)) => Step::Finish(Err(error)),
    }
}

/// A step towards a build that may not be there, with its lists told apart by what they hold alone.
pub open spec fn settled_option(step: Step<Option<SharedBuild>, SharedBuildError>) -> Step<
    Option<SharedBuild>,
    SharedBuildError,
> {
    match step {
        Step::Perform(statement) => Step::Perform(statement),
        Step::Finish(Ok(Some(build))) => Step::Finish(Ok(Some(build.settled()))),
        Step::Finish(Ok(None)) => Step::Finish(Ok(None)),
        Step::Finish(Err(error)) => Step::Finish(Err(error)),
    }
}

/// A reply with the row of a build; what no row means is given.
pub open spec fn replied_build(
    reply: Reply,
    missing: SharedBuildFailure,
    rules: SharedBuildRules,
) -> Result<SharedBuild, SharedBuildFailure> {
    match reply {
        Reply::SharedBuild(Some(row)) => match build_of(row, rules) {
            Some(build) => Ok(build),
            None => Err(SharedBuildFailure::Query),
        },
        Reply::SharedBuild(None) => Err(missing),
        _ => Err(SharedBuildFailure::Query),
    }
}

fn build_in(reply: &Reply, missing: SharedBuildFailure, rules: &SharedBuildRules) -> (build: Result<
    SharedBuild,
    SharedBuildFailure,
>)
    ensures
        match build {
            Ok(read) => replied_build(*reply, missing, *rules) == Ok::<
                SharedBuild,
                SharedBuildFailure,
            >(read.settled()),
            Err(failure) => replied_build(*reply, missing, *rules) == Err::<
                SharedBuild,
                SharedBuildFailure,
            >(failure),
        },
{
    match reply {
        Reply::SharedBuild(Some(row)) => decode_shared_build(row, rules),
        Reply::SharedBuild(None) => Err(missing),
        _ => Err(SharedBuildFailure::Query),
    }
}

/// How a claimed build is queued for a subject: under the lock of the subject, and only while
/// fewer of its builds wait than may.
pub open spec fn enqueue_step(
    database_url: Seq<char>,
    derivation_path: String,
    quota_subject: String,
    maximum_queued_builds: usize,
    rules: SharedBuildRules,
    history: Seq<Reply>,
) -> Step<SharedBuildQueueEntry, SharedBuildError> {
    if !identity_valid(database_url, derivation_path@, rules) || !is_subject(quota_subject@)
        || !(1 <= maximum_queued_builds <= 65_536) {
        failed(SharedBuildFailure::Configuration)
    } else if let Some(step) = begun(history) {
        step
    } else if history.len() == 1 {
        Step::Perform(Statement::LockQuotaSubject { quota_subject })
    } else if history[1] !is Done {
        failed(SharedBuildFailure::Query)
    } else if history.len() == 2 {
        Step::Perform(Statement::CountQueuedSharedBuilds { quota_subject })
    } else {
        match history[2] {
            Reply::Count(queued) => if queued >= maximum_queued_builds {
                failed(SharedBuildFailure::Quota)
            } else if history.len() == 3 {
                Step::Perform(Statement::EnqueueSharedBuild { derivation_path, quota_subject })
            } else {
                match history[3] {
                    Reply::QueueEntry(Some(row)) => match entry_of(row) {
                        Some(entry) => committed(history, 4, entry),
                        None => failed(SharedBuildFailure::Query),
                    },
                    Reply::QueueEntry(None) => failed(SharedBuildFailure::InvalidState),
                    _ => failed(SharedBuildFailure::Query),
                }
            },
            _ => failed(SharedBuildFailure::Query),
        }
    }
}

/// Queues a claimed build for a subject.
pub fn enqueue_shared_build(
    database_url: &str,
    derivation_path: &String,
    quota_subject: &String,
    maximum_queued_builds: usize,
    rules: &SharedBuildRules,
    history: &Vec<Reply>,
) -> (step: Step<SharedBuildQueueEntry, SharedBuildError>)
    ensures
        step == enqueue_step(
            database_url@,
            *derivation_path,
            *quota_subject,
            maximum_queued_builds,
            *rules,
            history@,
        ),
{
    if !valid_identity(database_url, derivation_path.as_str(), rules) || !plain(
        quota_subject.as_str(),
        MAX_IPC_CREDENTIAL_ID_BYTES,
    ) || maximum_queued_builds == 0 || maximum_queued_builds > 65_536 {
        return fail(SharedBuildFailure::Configuration);
    }
    if let Some(step) = begin(history) {
        return step;
    }
    if history.len() == 1 {
        return Step::Perform(Statement::LockQuotaSubject { quota_subject: quota_subject.clone() });
    }
    match &history[1] {
        Reply::Done => {},
        _ => {
            return fail(SharedBuildFailure::Query);
        },
    }
    if history.len() == 2 {
        return Step::Perform(
            Statement::CountQueuedSharedBuilds { quota_subject: quota_subject.clone() },
        );
    }
    match &history[2] {
        Reply::Count(queued) => {
            if *queued >= maximum_queued_builds as i64 {
                return fail(SharedBuildFailure::Quota);
            }
        },
        _ => {
            return fail(SharedBuildFailure::Query);
        },
    }
    if history.len() == 3 {
        return Step::Perform(
            Statement::EnqueueSharedBuild {
                derivation_path: derivation_path.clone(),
                quota_subject: quota_subject.clone(),
            },
        );
    }
    match &history[3] {
        Reply::QueueEntry(Some(row)) => match decode_shared_build_queue_entry(row) {
            Ok(entry) => commit(history, 4, entry),
            Err(failure) => fail(failure),
        },
        Reply::QueueEntry(None) => fail(SharedBuildFailure::InvalidState),
        _ => fail(SharedBuildFailure::Query),
    }
}

/// How the attempt at a build that just started is recorded, and the whole committed.
pub open spec fn attempt_step(build: SharedBuild, place: int, history: Seq<Reply>) -> Step<
    SharedBuild,
    SharedBuildError,
> {
    if history.len() <= place {
        Step::Perform(Statement::ReadNextAttemptOrdinal { derivation_path: build.derivation_path })
    } else {
        match history[place] {
            Reply::Ordinal(ordinal) => if history.len() == place + 1 {
                Step::Perform(
                    Statement::InsertRunningAttempt {
                        derivation_path: build.derivation_path,
                        ordinal,
                        backend_name: build.backend_name,
                        backend_kind: build.backend_kind.spec_name(),
                        backend_execution_id: build.backend_execution_id,
                    },
                )
            } else {
                match history[place + 1] {
                    Reply::SharedAttempt(Some(row)) => if attempt_of(row) is Some {
                        committed(history, place + 2, build)
                    } else {
                        failed(SharedBuildFailure::Query)
                    },
                    _ => failed(SharedBuildFailure::Query),
                }
            },
            _ => failed(SharedBuildFailure::Query),
        }
    }
}

fn create_shared_build_attempt(build: SharedBuild, place: usize, history: &Vec<Reply>) -> (step: Step<
    SharedBuild,
    SharedBuildError,
>)
    requires
        place < 100,
    ensures
        settled_build(step) == attempt_step(build.settled(), place as int, history@),
{
    if history.len() <= place {
        return Step::Perform(
            Statement::ReadNextAttemptOrdinal { derivation_path: build.derivation_path.clone() },
        );
    }
    let ordinal: i32 = match &history[place] {
        Reply::Ordinal(ordinal) => *ordinal,
        _ => {
            return fail(SharedBuildFailure::Query);
        },
    };
    if history.len() == place + 1 {
        return Step::Perform(
            Statement::InsertRunningAttempt {
                derivation_path: build.derivation_path.clone(),
                ordinal,
                backend_name: build.backend_name.clone(),
                backend_kind: build.backend_kind.as_str(),
                backend_execution_id: copy_option(&build.backend_execution_id),
            },
        );
    }
    match &history[place + 1] {
        Reply::SharedAttempt(Some(row)) => match decode_shared_build_attempt(row) {
            Ok(_) => commit(history, place + 2, build),
            Err(failure) => fail(failure),
        },
        _ => fail(SharedBuildFailure::Query),
    }
}

/// How a queued build starts: under the lock of its subject, and only while fewer builds of the
/// subject run than may.
pub open spec fn start_queued_step(
    database_url: Seq<char>,
    derivation_path: String,
    maximum_active_builds: usize,
    rules: SharedBuildRules,
    history: Seq<Reply>,
) -> Step<SharedBuild, SharedBuildError> {
    if !identity_valid(database_url, derivation_path@, rules) || !(1 <= maximum_active_builds
        <= 65_536) {
        failed(SharedBuildFailure::Configuration)
    } else if let Some(step) = begun(history) {
        step
    } else if history.len() == 1 {
        Step::Perform(Statement::LockQueuedSubject { derivation_path })
    } else {
        match history[1] {
            Reply::Text(None) => failed(SharedBuildFailure::InvalidState),
            Reply::Text(Some(Some(quota_subject))) => if history.len() == 2 {
                Step::Perform(Statement::LockQuotaSubject { quota_subject })
            } else if history[2] !is Done {
                failed(SharedBuildFailure::Query)
            } else if history.len() == 3 {
                Step::Perform(Statement::CountActiveSharedBuilds { quota_subject })
            } else {
                match history[3] {
                    Reply::Count(active) => if active >= maximum_active_builds {
                        failed(SharedBuildFailure::Quota)
                    } else if history.len() == 4 {
                        Step::Perform(Statement::StartClaimedSharedBuild { derivation_path })
                    } else {
                        match replied_build(history[4], SharedBuildFailure::Query, rules) {
                            Ok(build) => attempt_step(build, 5, history),
                            Err(failure) => failed(failure),
                        }
                    },
                    _ => failed(SharedBuildFailure::Query),
                }
            },
            _ => failed(SharedBuildFailure::Query),
        }
    }
}

/// Starts a queued build.
pub fn start_queued_shared_build(
    database_url: &str,
    derivation_path: &String,
    maximum_active_builds: usize,
    rules: &SharedBuildRules,
    history: &Vec<Reply>,
) -> (step: Step<SharedBuild, SharedBuildError>)
    ensures
        settled_build(step) == start_queued_step(
            database_url@,
            *derivation_path,
            maximum_active_builds,
            *rules,
            history@,
        ),
{
    if !valid_identity(database_url, derivation_path.as_str(), rules) || maximum_active_builds == 0
        || maximum_active_builds > 65_536 {
        return fail(SharedBuildFailure::Configuration);
    }
    if let Some(step) = begin(history) {
        return step;
    }
    if history.len() == 1 {
        return Step::Perform(
            Statement::LockQueuedSubject { derivation_path: derivation_path.clone() },
        );
    }
    let quota_subject = match &history[1] {
        Reply::Text(None) => {
            return fail(SharedBuildFailure::InvalidState);
        },
        Reply::Text(Some(Some(quota_subject))) => quota_subject,
        _ => {
            return fail(SharedBuildFailure::Query);
        },
    };
    if history.len() == 2 {
        return Step::Perform(Statement::LockQuotaSubject { quota_subject: quota_subject.clone() });
    }
    match &history[2] {
        Reply::Done => {},
        _ => {
            return fail(SharedBuildFailure::Query);
        },
    }
    if history.len() == 3 {
        return Step::Perform(
            Statement::CountActiveSharedBuilds { quota_subject: quota_subject.clone() },
        );
    }
    match &history[3] {
        Reply::Count(active) => {
            if *active >= maximum_active_builds as i64 {
                return fail(SharedBuildFailure::Quota);
            }
        },
        _ => {
            return fail(SharedBuildFailure::Query);
        },
    }
    if history.len() == 4 {
        return Step::Perform(
            Statement::StartClaimedSharedBuild { derivation_path: derivation_path.clone() },
        );
    }
    match build_in(&history[4], SharedBuildFailure::Query, rules) {
        Ok(build) => create_shared_build_attempt(build, 5, history),
        Err(failure) => fail(failure),
    }
}

/// How the queue is read.
pub open spec fn queued_step(database_url: Seq<char>, limit: usize, history: Seq<Reply>) -> Step<
    Seq<SharedBuildQueueEntry>,
    SharedBuildError,
> {
    if text::is_blank(database_url) || !(1 <= limit <= 256) {
        failed(SharedBuildFailure::Configuration)
    } else if let Some(step) = begun(history) {
        step
    } else if history.len() == 1 {
        Step::Perform(Statement::ReadQueuedSharedBuilds { maximum_rows: limit as i64 })
    } else {
        match history[1] {
            Reply::QueueEntries(rows) => match entries_of(rows@) {
                Some(entries) => Step::Finish(Ok(entries)),
                None => failed(SharedBuildFailure::Query),
            },
            _ => failed(SharedBuildFailure::Query),
        }
    }
}

/// Reads the queue in its order.
pub fn read_queued_shared_builds(database_url: &str, limit: usize, history: &Vec<Reply>) -> (step:
    Step<Vec<SharedBuildQueueEntry>, SharedBuildError>)
    ensures
        database::listed(step) == queued_step(database_url@, limit, history@),
{
    if text::blank(database_url) || limit == 0 || limit > 256 {
        return fail(SharedBuildFailure::Configuration);
    }
    if let Some(step) = begin(history) {
        return step;
    }
    if history.len() == 1 {
        return Step::Perform(Statement::ReadQueuedSharedBuilds { maximum_rows: limit as i64 });
    }
    match &history[1] {
        Reply::QueueEntries(rows) => match decode_entries(rows) {
            Some(entries) => Step::Finish(Ok(entries)),
            None => fail(SharedBuildFailure::Query),
        },
        _ => fail(SharedBuildFailure::Query),
    }
}

/// How the subject is read whose build was let in last.
pub open spec fn scheduler_subject_step(database_url: Seq<char>, history: Seq<Reply>) -> Step<
    Option<String>,
    SharedBuildError,
> {
    if text::is_blank(database_url) {
        failed(SharedBuildFailure::Configuration)
    } else if let Some(step) = begun(history) {
        step
    } else if history.len() == 1 {
        Step::Perform(Statement::ReadSchedulerSubject)
    } else {
        match history[1] {
            Reply::Text(Some(subject)) => Step::Finish(Ok(subject)),
            _ => failed(SharedBuildFailure::Query),
        }
    }
}

/// Reads the subject whose build was let in last, if any was.
pub fn read_shared_build_scheduler_subject(database_url: &str, history: &Vec<Reply>) -> (step: Step<
    Option<String>,
    SharedBuildError,
>)
    ensures
        step == scheduler_subject_step(database_url@, history@),
{
    if text::blank(database_url) {
        return fail(SharedBuildFailure::Configuration);
    }
    if let Some(step) = begin(history) {
        return step;
    }
    if history.len() == 1 {
        return Step::Perform(Statement::ReadSchedulerSubject);
    }
    match &history[1] {
        Reply::Text(Some(subject)) => Step::Finish(Ok(copy_option(subject))),
        _ => fail(SharedBuildFailure::Query),
    }
}

/// How the subject is recorded whose build was let in last.
pub open spec fn record_subject_step(
    database_url: Seq<char>,
    quota_subject: String,
    history: Seq<Reply>,
) -> Step<(), SharedBuildError> {
    if text::is_blank(database_url) || !is_subject(quota_subject@) {
        failed(SharedBuildFailure::Configuration)
    } else if let Some(step) = begun(history) {
        step
    } else if history.len() == 1 {
        Step::Perform(Statement::RecordSchedulerSubject { quota_subject })
    } else if history[1] is Changed {
        Step::Finish(Ok(()))
    } else {
        failed(SharedBuildFailure::Query)
    }
}

/// Records the subject whose build was let in last.
pub fn record_shared_build_scheduler_subject(
    database_url: &str,
    quota_subject: &String,
    history: &Vec<Reply>,
) -> (step: Step<(), SharedBuildError>)
    ensures
        step == record_subject_step(database_url@, *quota_subject, history@),
{
    if text::blank(database_url) || !plain(quota_subject.as_str(), MAX_IPC_CREDENTIAL_ID_BYTES) {
        return fail(SharedBuildFailure::Configuration);
    }
    if let Some(step) = begin(history) {
        return step;
    }
    if history.len() == 1 {
        return Step::Perform(
            Statement::RecordSchedulerSubject { quota_subject: quota_subject.clone() },
        );
    }
    match &history[1] {
        Reply::Changed(_) => Step::Finish(Ok(())),
        _ => fail(SharedBuildFailure::Query),
    }
}

/// An entry is for a subject after the given one, if one is given.
pub open spec fn comes_after(entry: SharedBuildQueueEntry, subject: Option<Seq<char>>) -> bool {
    match subject {
        Some(subject) => text::precedes(subject, entry.quota_subject@),
        None => true,
    }
}

/// The place of the entry with the first subject after the given one; of entries for one subject
/// the earliest counts.
pub open spec fn first_after(
    entries: Seq<SharedBuildQueueEntry>,
    subject: Option<Seq<char>>,
) -> Option<int>
    decreases entries.len(),
{
    if entries.len() == 0 {
        None
    } else {
        match first_after(entries.drop_last(), subject) {
            Some(place) => if comes_after(entries.last(), subject) && text::precedes(
                entries.last().quota_subject@,
                entries[place].quota_subject@,
            ) {
                Some(entries.len() - 1)
            } else {
                Some(place)
            },
            None => if comes_after(entries.last(), subject) {
                Some(entries.len() - 1)
            } else {
                None
            },
        }
    }
}

/// Whose turn it is: the first subject after the one that had the last turn, or the first of all
/// where none is after it.
pub open spec fn next_turn(
    entries: Seq<SharedBuildQueueEntry>,
    after: Option<Seq<char>>,
) -> Option<int> {
    match first_after(entries, after) {
        Some(place) => Some(place),
        None => first_after(entries, None),
    }
}

pub proof fn first_after_is_least(entries: Seq<SharedBuildQueueEntry>, subject: Option<Seq<char>>)
    ensures
        match first_after(entries, subject) {
            Some(place) => {
                &&& 0 <= place < entries.len()
                &&& comes_after(entries[place], subject)
                &&& forall|i: int|
                    0 <= i < entries.len() && comes_after(#[trigger] entries[i], subject)
                        ==> !text::precedes(
                        entries[i].quota_subject@,
                        entries[place].quota_subject@,
                    )
            },
            None => forall|i: int|
                0 <= i < entries.len() ==> !comes_after(#[trigger] entries[i], subject),
        },
    decreases entries.len(),
{
    if entries.len() > 0 {
        let earlier = entries.drop_last();
        let last = entries.last();
        first_after_is_least(earlier, subject);
        if let Some(place) = first_after(entries, subject) {
            assert forall|i: int|
                0 <= i < entries.len() && comes_after(
                    #[trigger] entries[i],
                    subject,
                ) implies !text::precedes(
                entries[i].quota_subject@,
                entries[place].quota_subject@,
            ) by {
                text::order_is_strict(last.quota_subject@, last.quota_subject@);
                if i < earlier.len() {
                    assert(earlier[i] == entries[i]);
                    let kept = first_after(earlier, subject)->0;
                    assert(earlier[kept] == entries[kept]);
                    if place != kept && text::precedes(
                        entries[i].quota_subject@,
                        last.quota_subject@,
                    ) {
                        text::order_is_transitive(
                            entries[i].quota_subject@,
                            last.quota_subject@,
                            entries[kept].quota_subject@,
                        );
                    }
                }
            }
        } else {
            assert forall|i: int| 0 <= i < entries.len() implies !comes_after(
                #[trigger] entries[i],
                subject,
            ) by {
                if i < earlier.len() {
                    assert(earlier[i] == entries[i]);
                }
            }
        }
    }
}

/// Subjects take turns: whoever is next comes after the one that had the last turn, with no
/// waiting subject in between, and only where none comes after does the first of all go.
pub proof fn subjects_take_turns(entries: Seq<SharedBuildQueueEntry>, after: Seq<char>)
    requires
        entries.len() > 0,
    ensures
        next_turn(entries, Some(after)) matches Some(place) && 0 <= place < entries.len() && if (
        exists|i: int|
            0 <= i < entries.len() && text::precedes(
                after,
                (#[trigger] entries[i]).quota_subject@,
            )) {
            &&& text::precedes(after, entries[place].quota_subject@)
            &&& forall|i: int|
                0 <= i < entries.len() && text::precedes(
                    after,
                    (#[trigger] entries[i]).quota_subject@,
                ) ==> !text::precedes(entries[i].quota_subject@, entries[place].quota_subject@)
        } else {
            forall|i: int|
                0 <= i < entries.len() ==> !text::precedes(
                    (#[trigger] entries[i]).quota_subject@,
                    entries[place].quota_subject@,
                )
        },
{
    first_after_is_least(entries, Some(after));
    first_after_is_least(entries, None);
    assert(comes_after(entries[0], None));
    match first_after(entries, Some(after)) {
        Some(place) => {
            assert(text::precedes(after, entries[place].quota_subject@));
            assert forall|i: int|
                0 <= i < entries.len() && text::precedes(
                    after,
                    (#[trigger] entries[i]).quota_subject@,
                ) implies !text::precedes(
                entries[i].quota_subject@,
                entries[place].quota_subject@,
            ) by {
                assert(comes_after(entries[i], Some(after)));
            }
        },
        None => {
            assert forall|i: int| 0 <= i < entries.len() implies !text::precedes(
                after,
                (#[trigger] entries[i]).quota_subject@,
            ) by {
                assert(!comes_after(entries[i], Some(after)));
            }
            let place = first_after(entries, None)->0;
            assert forall|i: int| 0 <= i < entries.len() implies !text::precedes(
                (#[trigger] entries[i]).quota_subject@,
                entries[place].quota_subject@,
            ) by {
                assert(comes_after(entries[i], None));
            }
        },
    }
}

/// Who has had the last of so many turns, as long as the same subjects wait.
pub open spec fn subject_after(
    entries: Seq<SharedBuildQueueEntry>,
    after: Option<Seq<char>>,
    turns: nat,
) -> Option<Seq<char>>
    decreases turns,
{
    if turns == 0 {
        after
    } else {
        match next_turn(entries, after) {
            Some(place) => subject_after(
                entries,
                Some(entries[place].quota_subject@),
                (turns - 1) as nat,
            ),
            None => after,
        }
    }
}

/// A subject has its turn before another one, going round from the last turn.
spec fn goes_before(after: Option<Seq<char>>, subject: Seq<char>, wanted: Seq<char>) -> bool {
    match after {
        Some(last) => if text::precedes(last, wanted) {
            text::precedes(last, subject) && text::precedes(subject, wanted)
        } else {
            text::precedes(last, subject) || text::precedes(subject, wanted)
        },
        None => text::precedes(subject, wanted),
    }
}

/// How many entries are for subjects that have their turn before another one.
spec fn waiting_before(
    entries: Seq<SharedBuildQueueEntry>,
    after: Option<Seq<char>>,
    wanted: Seq<char>,
) -> nat
    decreases entries.len(),
{
    if entries.len() == 0 {
        0
    } else {
        waiting_before(entries.drop_last(), after, wanted) + if goes_before(
            after,
            entries.last().quota_subject@,
            wanted,
        ) {
            1nat
        } else {
            0nat
        }
    }
}

/// Where all who go before later also went before earlier, and one of the latter has had its
/// turn, fewer are left.
proof fn fewer_wait(
    entries: Seq<SharedBuildQueueEntry>,
    earlier: Option<Seq<char>>,
    later: Option<Seq<char>>,
    wanted: Seq<char>,
)
    requires
        forall|i: int|
            0 <= i < entries.len() && goes_before(
                later,
                (#[trigger] entries[i]).quota_subject@,
                wanted,
            ) ==> goes_before(earlier, entries[i].quota_subject@, wanted),
    ensures
        waiting_before(entries, later, wanted) <= waiting_before(entries, earlier, wanted),
        (exists|i: int|
            0 <= i < entries.len() && goes_before(
                earlier,
                (#[trigger] entries[i]).quota_subject@,
                wanted,
            ) && !goes_before(later, entries[i].quota_subject@, wanted)) ==> waiting_before(
            entries,
            later,
            wanted,
        ) < waiting_before(entries, earlier, wanted),
    decreases entries.len(),
{
    if entries.len() > 0 {
        let rest = entries.drop_last();
        assert forall|i: int|
            0 <= i < rest.len() && goes_before(
                later,
                (#[trigger] rest[i]).quota_subject@,
                wanted,
            ) implies goes_before(earlier, rest[i].quota_subject@, wanted) by {
            assert(rest[i] == entries[i]);
        }
        fewer_wait(rest, earlier, later, wanted);
        assert(entries.last() == entries[entries.len() - 1]);
        if exists|i: int|
            0 <= i < entries.len() && goes_before(
                earlier,
                (#[trigger] entries[i]).quota_subject@,
                wanted,
            ) && !goes_before(later, entries[i].quota_subject@, wanted) {
            let place = choose|i: int|
                0 <= i < entries.len() && goes_before(
                    earlier,
                    (#[trigger] entries[i]).quota_subject@,
                    wanted,
                ) && !goes_before(later, entries[i].quota_subject@, wanted);
            if place < rest.len() {
                assert(rest[place] == entries[place]);
            }
        }
    }
}

/// Those who go before a subject are fewer than those who wait, if the subject is among them.
proof fn others_wait_before(
    entries: Seq<SharedBuildQueueEntry>,
    after: Option<Seq<char>>,
    wanted: Seq<char>,
)
    requires
        !goes_before(after, wanted, wanted),
    ensures
        waiting_before(entries, after, wanted) <= entries.len(),
        (exists|i: int| 0 <= i < entries.len() && (#[trigger] entries[i]).quota_subject@ == wanted)
            ==> waiting_before(entries, after, wanted) < entries.len(),
    decreases entries.len(),
{
    if entries.len() > 0 {
        let rest = entries.drop_last();
        others_wait_before(rest, after, wanted);
        if exists|i: int| 0 <= i < entries.len() && (#[trigger] entries[i]).quota_subject@ == wanted {
            let place = choose|i: int|
                0 <= i < entries.len() && (#[trigger] entries[i]).quota_subject@ == wanted;
            if place < rest.len() {
                assert(rest[place] == entries[place]);
            } else {
                assert(entries.last() == entries[place]);
            }
        }
    }
}

/// The next turn is the subject's own, or one that goes before it, and then fewer are left.
proof fn turn_comes_nearer(
    entries: Seq<SharedBuildQueueEntry>,
    after: Option<Seq<char>>,
    waiting: int,
)
    requires
        0 <= waiting < entries.len(),
    ensures
        next_turn(entries, after) matches Some(place) && 0 <= place < entries.len() && (
        entries[place].quota_subject@ == entries[waiting].quota_subject@ || waiting_before(
            entries,
            Some(entries[place].quota_subject@),
            entries[waiting].quota_subject@,
        ) < waiting_before(entries, after, entries[waiting].quota_subject@)),
{
    let wanted = entries[waiting].quota_subject@;
    first_after_is_least(entries, after);
    first_after_is_least(entries, None);
    assert(comes_after(entries[waiting], None));
    let place = next_turn(entries, after)->0;
    let chosen = entries[place].quota_subject@;
    text::order_is_strict(wanted, chosen);
    text::order_is_strict(chosen, chosen);
    if chosen != wanted {
        if let Some(last) = after {
            text::order_is_strict(last, wanted);
            if first_after(entries, after) is Some {
                assert(comes_after(entries[place], after));
                if text::precedes(last, wanted) {
                    assert(comes_after(entries[waiting], after));
                } else if last != wanted {
                    text::order_is_transitive(wanted, last, chosen);
                }
            } else {
                assert(!comes_after(entries[waiting], after));
            }
        }
        assert(goes_before(after, chosen, wanted));
        assert(!goes_before(Some(chosen), chosen, wanted));
        assert forall|i: int|
            0 <= i < entries.len() && goes_before(
                Some(chosen),
                (#[trigger] entries[i]).quota_subject@,
                wanted,
            ) implies goes_before(after, entries[i].quota_subject@, wanted) by {
            let subject = entries[i].quota_subject@;
            if let Some(last) = after {
                if text::precedes(last, chosen) && text::precedes(chosen, subject) {
                    text::order_is_transitive(last, chosen, subject);
                }
            }
        }
        fewer_wait(entries, after, Some(chosen), wanted);
    }
}

proof fn turn_comes_within(
    entries: Seq<SharedBuildQueueEntry>,
    after: Option<Seq<char>>,
    waiting: int,
) -> (turns: nat)
    requires
        0 <= waiting < entries.len(),
    ensures
        1 <= turns <= waiting_before(entries, after, entries[waiting].quota_subject@) + 1,
        subject_after(entries, after, turns) == Some(entries[waiting].quota_subject@),
    decreases waiting_before(entries, after, entries[waiting].quota_subject@),
{
    turn_comes_nearer(entries, after, waiting);
    let place = next_turn(entries, after)->0;
    let chosen = entries[place].quota_subject@;
    if chosen == entries[waiting].quota_subject@ {
        assert(subject_after(entries, Some(chosen), 0) == Some(chosen));
        1
    } else {
        let rest = turn_comes_within(entries, Some(chosen), waiting);
        rest + 1
    }
}

/// Nobody who waits is passed over: as long as the same subjects wait, each has its turn after
/// no more turns than there are subjects.
pub proof fn waiting_subject_has_its_turn(
    entries: Seq<SharedBuildQueueEntry>,
    after: Option<Seq<char>>,
    waiting: int,
)
    requires
        0 <= waiting < entries.len(),
    ensures
        exists|turns: nat|
            1 <= turns <= entries.len() && #[trigger] subject_after(entries, after, turns) == Some(
                entries[waiting].quota_subject@,
            ),
{
    let wanted = entries[waiting].quota_subject@;
    let turns = turn_comes_within(entries, after, waiting);
    text::order_is_strict(wanted, wanted);
    if let Some(last) = after {
        text::order_is_strict(last, wanted);
    }
    others_wait_before(entries, after, wanted);
    assert(subject_after(entries, after, turns) == Some(entries[waiting].quota_subject@));
}

fn find_first_after(entries: &Vec<SharedBuildQueueEntry>, subject: Option<&str>) -> (place: Option<
    usize,
>)
    ensures
        match place {
            Some(place) => first_after(
                entries@,
                match subject {
                    Some(subject) => Some(subject@),
                    None => None,
                },
            ) == Some(place as int) && place < entries@.len(),
            None => first_after(
                entries@,
                match subject {
                    Some(subject) => Some(subject@),
                    None => None,
                },
            ) is None,
        },
{
    let ghost after: Option<Seq<char>> = match subject {
        Some(subject) => Some(subject@),
        None => None,
    };
    let mut found: Option<usize> = None;
    let mut i: usize = 0;
    assert(entries@.take(0) =~= Seq::<SharedBuildQueueEntry>::empty());
    while i < entries.len()
        invariant
            i <= entries@.len(),
            after == match subject {
                Some(subject) => Some(subject@),
                None => None,
            },
            match found {
                Some(place) => first_after(entries@.take(i as int), after) == Some(place as int)
                    && place < i,
                None => first_after(entries@.take(i as int), after) is None,
            },
        decreases entries@.len() - i,
    {
        assert(entries@.take(i + 1).drop_last() =~= entries@.take(i as int));
        assert(entries@.take(i + 1).last() == entries@[i as int]);
        let later = match subject {
            Some(subject) => text::before(subject, entries[i].quota_subject.as_str()),
            None => true,
        };
        if later {
            let better = match found {
                Some(place) => text::before(
                    entries[i].quota_subject.as_str(),
                    entries[place].quota_subject.as_str(),
                ),
                None => true,
            };
            if better {
                found = Some(i);
            }
        }
        i += 1;
    }
    assert(entries@.take(entries@.len() as int) =~= entries@);
    found
}

/// A subject, where one is given, by what it holds.
pub open spec fn subject_text(subject: Option<String>) -> Option<Seq<char>> {
    match subject {
        Some(subject) => Some(subject@),
        None => None,
    }
}

/// How the build is found whose turn it is.
pub open spec fn next_step(
    database_url: Seq<char>,
    after_quota_subject: Option<String>,
    maximum_subjects: usize,
    history: Seq<Reply>,
) -> Step<Option<SharedBuildQueueEntry>, SharedBuildError> {
    if text::is_blank(database_url) || !(1 <= maximum_subjects <= 256) || (after_quota_subject
        is Some && !is_subject(after_quota_subject->0@)) {
        failed(SharedBuildFailure::Configuration)
    } else if let Some(step) = begun(history) {
        step
    } else if history.len() == 1 {
        Step::Perform(
            Statement::ReadFirstQueuedOfSubjects { maximum_rows: maximum_subjects as i64 },
        )
    } else {
        match history[1] {
            Reply::QueueEntries(rows) => match entries_of(rows@) {
                Some(entries) => match next_turn(entries, subject_text(after_quota_subject)) {
                    Some(place) => Step::Finish(Ok(Some(entries[place]))),
                    None => Step::Finish(Ok(None)),
                },
                None => failed(SharedBuildFailure::Query),
            },
            _ => failed(SharedBuildFailure::Query),
        }
    }
}

/// Finds the queued build whose turn it is, if any build is queued.
pub fn read_next_queued_shared_build(
    database_url: &str,
    after_quota_subject: &Option<String>,
    maximum_subjects: usize,
    history: &Vec<Reply>,
) -> (step: Step<Option<SharedBuildQueueEntry>, SharedBuildError>)
    ensures
        step == next_step(database_url@, *after_quota_subject, maximum_subjects, history@),
{
    let subject_valid = match after_quota_subject {
        Some(subject) => plain(subject.as_str(), MAX_IPC_CREDENTIAL_ID_BYTES),
        None => true,
    };
    if text::blank(database_url) || maximum_subjects == 0 || maximum_subjects > 256
        || !subject_valid {
        return fail(SharedBuildFailure::Configuration);
    }
    if let Some(step) = begin(history) {
        return step;
    }
    if history.len() == 1 {
        return Step::Perform(
            Statement::ReadFirstQueuedOfSubjects { maximum_rows: maximum_subjects as i64 },
        );
    }
    let rows = match &history[1] {
        Reply::QueueEntries(rows) => rows,
        _ => {
            return fail(SharedBuildFailure::Query);
        },
    };
    let mut entries = match decode_entries(rows) {
        Some(entries) => entries,
        None => {
            return fail(SharedBuildFailure::Query);
        },
    };
    let after = match after_quota_subject {
        Some(subject) => find_first_after(&entries, Some(subject.as_str())),
        None => find_first_after(&entries, None),
    };
    let selected = match after {
        Some(place) => Some(place),
        None => find_first_after(&entries, None),
    };
    match selected {
        Some(place) => Step::Finish(Ok(Some(entries.remove(place)))),
        None => Step::Finish(Ok(None)),
    }
}

/// What is claimed of a build that another claimed before has to be the same.
pub open spec fn same_claim(
    build: SharedBuild,
    backend_name: Seq<char>,
    backend_kind: BackendKind,
    capabilities: BackendCapabilities,
    backend_execution_id: Option<String>,
    expected_outputs: Seq<String>,
    build_request: Option<RequestedBuild>,
) -> bool {
    &&& build.backend_name@ == backend_name
    &&& build.backend_kind == backend_kind
    &&& build.capabilities == capabilities
    &&& same_options(build.backend_execution_id, backend_execution_id)
    &&& crypto::texts_of(build.expected_outputs@) == crypto::texts_of(expected_outputs)
    &&& match (build.build_request, build_request) {
        (Some(recorded), Some(claimed)) => recorded.text@ == claimed.text@,
        (None, None) => true,
        _ => false,
    }
}

pub open spec fn same_options(left: Option<String>, right: Option<String>) -> bool {
    match (left, right) {
        (Some(left), Some(right)) => left@ == right@,
        (None, None) => true,
        _ => false,
    }
}

fn agreeing_claim(
    build: &SharedBuild,
    backend_name: &str,
    backend_kind: BackendKind,
    capabilities: BackendCapabilities,
    backend_execution_id: &Option<String>,
    expected_outputs: &Vec<String>,
    build_request: &Option<RequestedBuild>,
) -> (same: bool)
    ensures
        same == same_claim(
            build.settled(),
            backend_name@,
            backend_kind,
            capabilities,
            *backend_execution_id,
            expected_outputs@,
            *build_request,
        ),
{
    let execution = match (&build.backend_execution_id, backend_execution_id) {
        (Some(left), Some(right)) => text::same_text(left.as_str(), right.as_str()),
        (None, None) => true,
        _ => false,
    };
    let request = match (&build.build_request, build_request) {
        (Some(recorded), Some(claimed)) => text::same_text(
            recorded.text.as_str(),
            claimed.text.as_str(),
        ),
        (None, None) => true,
        _ => false,
    };
    text::same_text(build.backend_name.as_str(), backend_name) && build.backend_kind
        == backend_kind && build.capabilities == capabilities && execution && same_lists(
        &build.expected_outputs,
        expected_outputs,
    ) && request
}

/// A step towards a claim, with its lists told apart by what they hold alone.
pub open spec fn settled_claim(step: Step<SharedBuildClaim, SharedBuildError>) -> Step<
    SharedBuildClaim,
    SharedBuildError,
> {
    match step {
        Step::Perform(statement) => Step::Perform(statement.settled()),
        Step::Finish(Ok(claim)) => Step::Finish(
            Ok(SharedBuildClaim { ownership: claim.ownership, build: claim.build.settled() }),
        ),
        Step::Finish(Err(error)) => Step::Finish(Err(error)),
    }
}

/// How a build is claimed: it is inserted, or taken over where it failed before, and else joined
/// where the claim is the same.
pub open spec fn claim_step(
    database_url: Seq<char>,
    derivation_path: String,
    request_digest: Seq<u8>,
    backend_name: String,
    backend_kind: BackendKind,
    capabilities: BackendCapabilities,
    backend_execution_id: Option<String>,
    expected_outputs: Seq<String>,
    build_request: Option<RequestedBuild>,
    rules: SharedBuildRules,
    history: Seq<Reply>,
) -> Step<SharedBuildClaim, SharedBuildError> {
    if text::is_blank(database_url) || !is_claim(
        derivation_path@,
        request_digest.len(),
        backend_name@,
        backend_kind,
        capabilities,
        backend_execution_id,
        expected_outputs,
        rules,
    ) {
        failed(SharedBuildFailure::Configuration)
    } else if let Some(step) = begun(history) {
        step
    } else if history.len() == 1 {
        Step::Perform(
            Statement::ClaimSharedBuild {
                derivation_path,
                request_digest: database::digest_of(request_digest),
                backend_name,
                backend_kind: backend_kind.spec_name(),
                execution_recovery: capabilities.execution_recovery.spec_name(),
                cancellation: capabilities.cancellation.spec_name(),
                log_recovery: capabilities.log_recovery.spec_name(),
                backend_execution_id,
                expected_outputs: database::list_of(expected_outputs),
                build_request: match build_request {
                    Some(request) => Some(request.text),
                    None => None,
                },
            },
        )
    } else {
        match history[1] {
            Reply::Found(inserted) => if history.len() == 2 {
                Step::Perform(Statement::ReadSharedBuild { derivation_path })
            } else {
                match replied_build(history[2], SharedBuildFailure::Query, rules) {
                    Ok(build) => if build.request_digest@ != request_digest || (!inserted
                        && !same_claim(
                        build,
                        backend_name@,
                        backend_kind,
                        capabilities,
                        backend_execution_id,
                        expected_outputs,
                        build_request,
                    )) {
                        failed(SharedBuildFailure::Conflict)
                    } else {
                        committed(
                            history,
                            3,
                            SharedBuildClaim {
                                ownership: if inserted {
                                    SharedBuildOwnership::Claimed
                                } else {
                                    SharedBuildOwnership::Joined
                                },
                                build,
                            },
                        )
                    },
                    Err(failure) => failed(failure),
                }
            },
            _ => failed(SharedBuildFailure::Query),
        }
    }
}

fn claim_shared_build_inner(
    database_url: &str,
    derivation_path: &String,
    request_digest: &[u8],
    backend_name: &String,
    backend_kind: BackendKind,
    capabilities: BackendCapabilities,
    backend_execution_id: &Option<String>,
    expected_outputs: &Vec<String>,
    build_request: &Option<RequestedBuild>,
    rules: &SharedBuildRules,
    history: &Vec<Reply>,
) -> (step: Step<SharedBuildClaim, SharedBuildError>)
    ensures
        settled_claim(step) == claim_step(
            database_url@,
            *derivation_path,
            request_digest@,
            *backend_name,
            backend_kind,
            capabilities,
            *backend_execution_id,
            expected_outputs@,
            *build_request,
            *rules,
            history@,
        ),
{
    if text::blank(database_url) || !claim_valid(
        derivation_path.as_str(),
        request_digest.len(),
        backend_name.as_str(),
        backend_kind,
        capabilities,
        backend_execution_id,
        expected_outputs,
        rules,
    ) {
        return fail(SharedBuildFailure::Configuration);
    }
    let claimed_digest = match digest(request_digest) {
        Some(claimed_digest) => claimed_digest,
        None => {
            return fail(SharedBuildFailure::Configuration);
        },
    };
    if let Some(step) = begin(history) {
        return step;
    }
    if history.len() == 1 {
        return Step::Perform(
            Statement::ClaimSharedBuild {
                derivation_path: derivation_path.clone(),
                request_digest: claimed_digest,
                backend_name: backend_name.clone(),
                backend_kind: backend_kind.as_str(),
                execution_recovery: capabilities.execution_recovery.as_str(),
                cancellation: capabilities.cancellation.as_str(),
                log_recovery: capabilities.log_recovery.as_str(),
                backend_execution_id: copy_option(backend_execution_id),
                expected_outputs: copy_list(expected_outputs),
                build_request: match build_request {
                    Some(request) => Some(request.text.clone()),
                    None => None,
                },
            },
        );
    }
    let inserted = match &history[1] {
        Reply::Found(inserted) => *inserted,
        _ => {
            return fail(SharedBuildFailure::Query);
        },
    };
    if history.len() == 2 {
        return Step::Perform(
            Statement::ReadSharedBuild { derivation_path: derivation_path.clone() },
        );
    }
    let build = match build_in(&history[2], SharedBuildFailure::Query, rules) {
        Ok(build) => build,
        Err(failure) => {
            return fail(failure);
        },
    };
    if !text::same_bytes(build.request_digest.as_slice(), request_digest) {
        return fail(SharedBuildFailure::Conflict);
    }
    if !inserted && !agreeing_claim(
        &build,
        backend_name.as_str(),
        backend_kind,
        capabilities,
        backend_execution_id,
        expected_outputs,
        build_request,
    ) {
        return fail(SharedBuildFailure::Conflict);
    }
    let ownership = if inserted {
        SharedBuildOwnership::Claimed
    } else {
        SharedBuildOwnership::Joined
    };
    commit(history, 3, SharedBuildClaim { ownership, build })
}

/// Claims a build of which only the outputs are known.
pub fn claim_shared_build(
    database_url: &str,
    derivation_path: &String,
    request_digest: &[u8],
    backend_name: &String,
    backend_kind: BackendKind,
    capabilities: BackendCapabilities,
    backend_execution_id: &Option<String>,
    expected_outputs: &Vec<String>,
    rules: &SharedBuildRules,
    history: &Vec<Reply>,
) -> (step: Step<SharedBuildClaim, SharedBuildError>)
    ensures
        settled_claim(step) == claim_step(
            database_url@,
            *derivation_path,
            request_digest@,
            *backend_name,
            backend_kind,
            capabilities,
            *backend_execution_id,
            expected_outputs@,
            None,
            *rules,
            history@,
        ),
{
    claim_shared_build_inner(
        database_url,
        derivation_path,
        request_digest,
        backend_name,
        backend_kind,
        capabilities,
        backend_execution_id,
        expected_outputs,
        &None,
        rules,
        history,
    )
}

/// Claims a build with the request that it comes from, which has to fit the claim.
pub fn claim_shared_build_with_request(
    database_url: &str,
    derivation_path: &String,
    request_digest: &[u8],
    backend_name: &String,
    backend_kind: BackendKind,
    capabilities: BackendCapabilities,
    backend_execution_id: &Option<String>,
    expected_outputs: &Vec<String>,
    build_request: &RequestedBuild,
    rules: &SharedBuildRules,
    history: &Vec<Reply>,
) -> (step: Step<SharedBuildClaim, SharedBuildError>)
    ensures
        settled_claim(step) == if !request_fits(
            *build_request,
            derivation_path@,
            request_digest@,
            expected_outputs@,
        ) {
            failed(SharedBuildFailure::Configuration)
        } else {
            claim_step(
                database_url@,
                *derivation_path,
                request_digest@,
                *backend_name,
                backend_kind,
                capabilities,
                *backend_execution_id,
                expected_outputs@,
                Some(build_request.settled()),
                *rules,
                history@,
            )
        },
{
    if !fitting_request(build_request, derivation_path.as_str(), request_digest, expected_outputs) {
        return fail(SharedBuildFailure::Configuration);
    }
    let request = Some(build_request.copy());
    let step = claim_shared_build_inner(
        database_url,
        derivation_path,
        request_digest,
        backend_name,
        backend_kind,
        capabilities,
        backend_execution_id,
        expected_outputs,
        &request,
        rules,
        history,
    );
    assert(request->0.text == build_request.settled().text);
    step
}

/// Whoever joins a build gets one with the same digest, on the same backend and with the same
/// outputs as was claimed.
pub proof fn joined_build_is_the_same(
    database_url: Seq<char>,
    derivation_path: String,
    request_digest: Seq<u8>,
    backend_name: String,
    backend_kind: BackendKind,
    capabilities: BackendCapabilities,
    backend_execution_id: Option<String>,
    expected_outputs: Seq<String>,
    build_request: Option<RequestedBuild>,
    rules: SharedBuildRules,
    history: Seq<Reply>,
    claim: SharedBuildClaim,
)
    requires
        claim_step(
            database_url,
            derivation_path,
            request_digest,
            backend_name,
            backend_kind,
            capabilities,
            backend_execution_id,
            expected_outputs,
            build_request,
            rules,
            history,
        ) == Step::<SharedBuildClaim, SharedBuildError>::Finish(Ok(claim)),
    ensures
        claim.build.request_digest@ == request_digest,
        claim.ownership == SharedBuildOwnership::Joined ==> same_claim(
            claim.build,
            backend_name@,
            backend_kind,
            capabilities,
            backend_execution_id,
            expected_outputs,
            build_request,
        ),
        history[1] == Reply::Found(claim.ownership == SharedBuildOwnership::Claimed),
{
}

/// How a build is read by what asked for it: a reply with no row is no build.
pub open spec fn optional_build(
    statement: Statement,
    rules: SharedBuildRules,
    history: Seq<Reply>,
) -> Step<Option<SharedBuild>, SharedBuildError> {
    if let Some(step) = begun(history) {
        step
    } else if history.len() == 1 {
        Step::Perform(statement)
    } else if history[1] matches Reply::SharedBuild(None) {
        Step::Finish(Ok(None))
    } else {
        match replied_build(history[1], SharedBuildFailure::Query, rules) {
            Ok(build) => Step::Finish(Ok(Some(build))),
            Err(failure) => failed(failure),
        }
    }
}

fn read_optional_build(statement: Statement, rules: &SharedBuildRules, history: &Vec<Reply>) -> (step:
    Step<Option<SharedBuild>, SharedBuildError>)
    ensures
        settled_option(step) == optional_build(statement, *rules, history@),
{
    if let Some(step) = begin(history) {
        return step;
    }
    if history.len() == 1 {
        return Step::Perform(statement);
    }
    if let Reply::SharedBuild(None) = &history[1] {
        return Step::Finish(Ok(None));
    }
    match build_in(&history[1], SharedBuildFailure::Query, rules) {
        Ok(build) => Step::Finish(Ok(Some(build))),
        Err(failure) => fail(failure),
    }
}

/// How the build that runs or collects under an execution is read.
pub open spec fn executed_step(
    database_url: Seq<char>,
    backend_name: String,
    backend_execution_id: String,
    rules: SharedBuildRules,
    history: Seq<Reply>,
) -> Step<Option<SharedBuild>, SharedBuildError> {
    if text::is_blank(database_url) || !is_plain(backend_name@, MAX_IPC_COMPONENT_BYTES as nat)
        || !is_plain(backend_execution_id@, rules.limits.maximum_store_path_bytes as nat) {
        failed(SharedBuildFailure::Configuration)
    } else {
        optional_build(
            Statement::ReadSharedBuildByExecution { backend_name, backend_execution_id },
            rules,
            history,
        )
    }
}

/// Reads the build that runs or collects under an execution, if there is one.
pub fn read_shared_build_by_execution(
    database_url: &str,
    backend_name: &String,
    backend_execution_id: &String,
    rules: &SharedBuildRules,
    history: &Vec<Reply>,
) -> (step: Step<Option<SharedBuild>, SharedBuildError>)
    ensures
        settled_option(step) == executed_step(
            database_url@,
            *backend_name,
            *backend_execution_id,
            *rules,
            history@,
        ),
{
    if text::blank(database_url) || !plain(backend_name.as_str(), MAX_IPC_COMPONENT_BYTES) || !plain(
        backend_execution_id.as_str(),
        rules.limits.maximum_store_path_bytes,
    ) {
        return fail(SharedBuildFailure::Configuration);
    }
    read_optional_build(
        Statement::ReadSharedBuildByExecution {
            backend_name: backend_name.clone(),
            backend_execution_id: backend_execution_id.clone(),
        },
        rules,
        history,
    )
}

/// How the build of a derivation is read.
pub open spec fn read_build_step(
    database_url: Seq<char>,
    derivation_path: String,
    rules: SharedBuildRules,
    history: Seq<Reply>,
) -> Step<Option<SharedBuild>, SharedBuildError> {
    if !identity_valid(database_url, derivation_path@, rules) {
        failed(SharedBuildFailure::Configuration)
    } else {
        optional_build(Statement::ReadSharedBuild { derivation_path }, rules, history)
    }
}

/// Reads the build of a derivation, if there is one.
pub fn read_shared_build(
    database_url: &str,
    derivation_path: &String,
    rules: &SharedBuildRules,
    history: &Vec<Reply>,
) -> (step: Step<Option<SharedBuild>, SharedBuildError>)
    ensures
        settled_option(step) == read_build_step(
            database_url@,
            *derivation_path,
            *rules,
            history@,
        ),
{
    if !valid_identity(database_url, derivation_path.as_str(), rules) {
        return fail(SharedBuildFailure::Configuration);
    }
    read_optional_build(
        Statement::ReadSharedBuild { derivation_path: derivation_path.clone() },
        rules,
        history,
    )
}

/// How builds are counted.
pub open spec fn counts_step(database_url: Seq<char>, history: Seq<Reply>) -> Step<
    SharedBuildOperationalCounts,
    SharedBuildError,
> {
    if text::is_blank(database_url) {
        failed(SharedBuildFailure::Configuration)
    } else if let Some(step) = begun(history) {
        step
    } else if history.len() == 1 {
        Step::Perform(Statement::CountSharedBuilds)
    } else {
        match history[1] {
            Reply::Counts(queued, running, collecting) => if queued >= 0 && running >= 0
                && collecting >= 0 {
                Step::Finish(
                    Ok(
                        SharedBuildOperationalCounts {
                            queued: queued as u64,
                            running: running as u64,
                            collecting: collecting as u64,
                        },
                    ),
                )
            } else {
                failed(SharedBuildFailure::Query)
            },
            _ => failed(SharedBuildFailure::Query),
        }
    }
}

/// Counts the builds that are queued, running and collecting.
pub fn read_shared_build_operational_counts(database_url: &str, history: &Vec<Reply>) -> (step: Step<
    SharedBuildOperationalCounts,
    SharedBuildError,
>)
    ensures
        step == counts_step(database_url@, history@),
{
    if text::blank(database_url) {
        return fail(SharedBuildFailure::Configuration);
    }
    if let Some(step) = begin(history) {
        return step;
    }
    if history.len() == 1 {
        return Step::Perform(Statement::CountSharedBuilds);
    }
    match &history[1] {
        Reply::Counts(queued, running, collecting) => {
            if *queued < 0 || *running < 0 || *collecting < 0 {
                return fail(SharedBuildFailure::Query);
            }
            Step::Finish(
                Ok(
                    SharedBuildOperationalCounts {
                        queued: *queued as u64,
                        running: *running as u64,
                        collecting: *collecting as u64,
                    },
                ),
            )
        },
        _ => fail(SharedBuildFailure::Query),
    }
}

/// The builds that rows record; `None` where one of the rows is inconsistent.
pub open spec fn builds_of(rows: Seq<SharedBuildRow>, rules: SharedBuildRules) -> Option<
    Seq<SharedBuild>,
> {
    if forall|i: int| 0 <= i < rows.len() ==> build_of(#[trigger] rows[i], rules) is Some {
        Some(rows.map_values(|row: SharedBuildRow| build_of(row, rules)->0))
    } else {
        None
    }
}

/// A step towards builds, with their lists told apart by what they hold alone.
pub open spec fn settled_builds(step: Step<Vec<SharedBuild>, SharedBuildError>) -> Step<
    Seq<SharedBuild>,
    SharedBuildError,
> {
    match step {
        Step::Perform(statement) => Step::Perform(statement),
        Step::Finish(Ok(builds)) => Step::Finish(
            Ok(builds@.map_values(|build: SharedBuild| build.settled())),
        ),
        Step::Finish(Err(error)) => Step::Finish(Err(error)),
    }
}

fn decode_builds(rows: &Vec<SharedBuildRow>, rules: &SharedBuildRules) -> (builds: Option<
    Vec<SharedBuild>,
>)
    ensures
        match builds {
            Some(decoded) => builds_of(rows@, *rules) == Some(
                decoded@.map_values(|build: SharedBuild| build.settled()),
            ),
            None => builds_of(rows@, *rules) is None,
        },
{
    let mut decoded: Vec<SharedBuild> = Vec::new();
    let mut i: usize = 0;
    while i < rows.len()
        invariant
            i <= rows@.len(),
            decoded@.len() == i,
            forall|j: int|
                0 <= j < i ==> build_of(#[trigger] rows@[j], *rules) == Some(
                    decoded@[j].settled(),
                ),
        decreases rows@.len() - i,
    {
        match decode_shared_build(&rows[i], rules) {
            Ok(build) => decoded.push(build),
            Err(_) => {
                assert(build_of(rows@[i as int], *rules) is None);
                return None;
            },
        }
        i += 1;
    }
    assert(decoded@.map_values(|build: SharedBuild| build.settled()) =~= rows@.map_values(
        |row: SharedBuildRow| build_of(row, *rules)->0,
    ));
    Some(decoded)
}

/// How the builds are read that have not ended.
pub open spec fn active_step(
    database_url: Seq<char>,
    limit: usize,
    rules: SharedBuildRules,
    history: Seq<Reply>,
) -> Step<Seq<SharedBuild>, SharedBuildError> {
    if text::is_blank(database_url) || !(1 <= limit <= 256) {
        failed(SharedBuildFailure::Configuration)
    } else if let Some(step) = begun(history) {
        step
    } else if history.len() == 1 {
        Step::Perform(Statement::ReadActiveSharedBuilds { maximum_rows: limit as i64 })
    } else {
        match history[1] {
            Reply::SharedBuilds(rows) => match builds_of(rows@, rules) {
                Some(builds) => Step::Finish(Ok(builds)),
                None => failed(SharedBuildFailure::Query),
            },
            _ => failed(SharedBuildFailure::Query),
        }
    }
}

/// Reads builds that have not ended, oldest first.
pub fn read_active_shared_builds(
    database_url: &str,
    limit: usize,
    rules: &SharedBuildRules,
    history: &Vec<Reply>,
) -> (step: Step<Vec<SharedBuild>, SharedBuildError>)
    ensures
        settled_builds(step) == active_step(database_url@, limit, *rules, history@),
{
    if text::blank(database_url) || limit == 0 || limit > 256 {
        return fail(SharedBuildFailure::Configuration);
    }
    if let Some(step) = begin(history) {
        return step;
    }
    if history.len() == 1 {
        return Step::Perform(Statement::ReadActiveSharedBuilds { maximum_rows: limit as i64 });
    }
    match &history[1] {
        Reply::SharedBuilds(rows) => match decode_builds(rows, rules) {
            Some(builds) => Step::Finish(Ok(builds)),
            None => fail(SharedBuildFailure::Query),
        },
        _ => fail(SharedBuildFailure::Query),
    }
}

/// How a claimed build starts.
pub open spec fn start_step(
    database_url: Seq<char>,
    derivation_path: String,
    rules: SharedBuildRules,
    history: Seq<Reply>,
) -> Step<SharedBuild, SharedBuildError> {
    if !identity_valid(database_url, derivation_path@, rules) {
        failed(SharedBuildFailure::Configuration)
    } else if let Some(step) = begun(history) {
        step
    } else if history.len() == 1 {
        Step::Perform(Statement::StartClaimedSharedBuild { derivation_path })
    } else {
        match replied_build(history[1], SharedBuildFailure::InvalidState, rules) {
            Ok(build) => attempt_step(build, 2, history),
            Err(failure) => failed(failure),
        }
    }
}

/// Starts a claimed build.
pub fn start_shared_build(
    database_url: &str,
    derivation_path: &String,
    rules: &SharedBuildRules,
    history: &Vec<Reply>,
) -> (step: Step<SharedBuild, SharedBuildError>)
    ensures
        settled_build(step) == start_step(database_url@, *derivation_path, *rules, history@),
{
    if !valid_identity(database_url, derivation_path.as_str(), rules) {
        return fail(SharedBuildFailure::Configuration);
    }
    if let Some(step) = begin(history) {
        return step;
    }
    if history.len() == 1 {
        return Step::Perform(
            Statement::StartClaimedSharedBuild { derivation_path: derivation_path.clone() },
        );
    }
    match build_in(&history[1], SharedBuildFailure::InvalidState, rules) {
        Ok(build) => create_shared_build_attempt(build, 2, history),
        Err(failure) => fail(failure),
    }
}

/// How the collection of outputs is recorded: of a running build with one running attempt.
pub open spec fn collect_step(
    database_url: Seq<char>,
    derivation_path: String,
    rules: SharedBuildRules,
    history: Seq<Reply>,
) -> Step<SharedBuild, SharedBuildError> {
    if !identity_valid(database_url, derivation_path@, rules) {
        failed(SharedBuildFailure::Configuration)
    } else if let Some(step) = begun(history) {
        step
    } else if history.len() == 1 {
        Step::Perform(Statement::CollectRunningSharedBuild { derivation_path })
    } else {
        match history[1] {
            Reply::SharedBuild(None) => failed(SharedBuildFailure::InvalidState),
            Reply::SharedBuild(Some(row)) => if history.len() == 2 {
                Step::Perform(Statement::CollectRunningAttempts { derivation_path })
            } else {
                match history[2] {
                    Reply::Changed(attempts) => if attempts != 1 {
                        failed(SharedBuildFailure::InvalidState)
                    } else {
                        match build_of(row, rules) {
                            Some(build) => committed(history, 3, build),
                            None => failed(SharedBuildFailure::Query),
                        }
                    },
                    _ => failed(SharedBuildFailure::Query),
                }
            },
            _ => failed(SharedBuildFailure::Query),
        }
    }
}

/// Records that the outputs of a running build are collected.
pub fn collect_shared_build(
    database_url: &str,
    derivation_path: &String,
    rules: &SharedBuildRules,
    history: &Vec<Reply>,
) -> (step: Step<SharedBuild, SharedBuildError>)
    ensures
        settled_build(step) == collect_step(database_url@, *derivation_path, *rules, history@),
{
    if !valid_identity(database_url, derivation_path.as_str(), rules) {
        return fail(SharedBuildFailure::Configuration);
    }
    if let Some(step) = begin(history) {
        return step;
    }
    if history.len() == 1 {
        return Step::Perform(
            Statement::CollectRunningSharedBuild { derivation_path: derivation_path.clone() },
        );
    }
    let row = match &history[1] {
        Reply::SharedBuild(Some(row)) => row,
        Reply::SharedBuild(None) => {
            return fail(SharedBuildFailure::InvalidState);
        },
        _ => {
            return fail(SharedBuildFailure::Query);
        },
    };
    if history.len() == 2 {
        return Step::Perform(
            Statement::CollectRunningAttempts { derivation_path: derivation_path.clone() },
        );
    }
    match &history[2] {
        Reply::Changed(attempts) => {
            if *attempts != 1 {
                return fail(SharedBuildFailure::InvalidState);
            }
        },
        _ => {
            return fail(SharedBuildFailure::Query);
        },
    }
    match decode_shared_build(row, rules) {
        Ok(build) => commit(history, 3, build),
        Err(failure) => fail(failure),
    }
}

/// The longest that the end of a build is remembered: a day.
pub open spec fn is_remembrance(retention: Span) -> bool {
    0 < retention.total() <= 86_400 * 1_000_000_000
}

/// What a build ends with fits together.
pub open spec fn completion_valid(
    state: SharedBuildState,
    failure_classification: Option<String>,
    result_metadata: Seq<char>,
    retention: Span,
) -> bool {
    &&& crypto::json_is_object(result_metadata) == Some(true)
    &&& text::byte_length(result_metadata) <= 1_048_576
    &&& is_remembrance(retention)
    &&& match failure_classification {
        Some(classification) => is_plain(classification@, MAX_IPC_COMPONENT_BYTES as nat) && state
            == SharedBuildState::Failed,
        None => state == SharedBuildState::Succeeded,
    }
}

/// The name of a state that a build ends in.
pub open spec fn ending_name(state: SharedBuildState) -> &'static str {
    if state == SharedBuildState::Succeeded {
        "succeeded"
    } else {
        "failed"
    }
}

/// A build can end so from the state that it is in: with success only while it collects.
pub open spec fn may_end(state: SharedBuildState, current: Seq<char>) -> bool {
    if state == SharedBuildState::Succeeded {
        current == "collecting"@
    } else {
        current == "claimed"@ || current == "running"@ || current == "collecting"@
    }
}

/// How a build ends, with the attempt at it where one was made.
pub open spec fn complete_step(
    database_url: Seq<char>,
    derivation_path: String,
    state: SharedBuildState,
    failure_classification: Option<String>,
    classification: String,
    result_metadata: String,
    retention: Span,
    rules: SharedBuildRules,
    history: Seq<Reply>,
) -> Step<SharedBuild, SharedBuildError> {
    if !identity_valid(database_url, derivation_path@, rules) || !completion_valid(
        state,
        failure_classification,
        result_metadata@,
        retention,
    ) {
        failed(SharedBuildFailure::Configuration)
    } else if let Some(step) = begun(history) {
        step
    } else if history.len() == 1 {
        Step::Perform(Statement::LockSharedBuildState { derivation_path })
    } else {
        match history[1] {
            Reply::Text(None) => failed(SharedBuildFailure::InvalidState),
            Reply::Text(Some(Some(current))) => if !may_end(state, current@) {
                failed(SharedBuildFailure::InvalidState)
            } else if history.len() == 2 {
                Step::Perform(
                    Statement::CompleteSharedBuild {
                        derivation_path,
                        state: ending_name(state),
                        result_metadata,
                        failure_classification,
                        expires_after_seconds: retention.seconds as u32,
                    },
                )
            } else {
                match history[2] {
                    Reply::SharedBuild(Some(row)) => if current@ == "claimed"@ {
                        match build_of(row, rules) {
                            Some(build) => committed(history, 3, build),
                            None => failed(SharedBuildFailure::Query),
                        }
                    } else {
                        end_attempt_step(
                            derivation_path,
                            state,
                            classification,
                            result_metadata,
                            row,
                            rules,
                            history,
                        )
                    },
                    _ => failed(SharedBuildFailure::Query),
                }
            },
            _ => failed(SharedBuildFailure::Query),
        }
    }
}

/// How the attempt at a build ends with it.
pub open spec fn end_attempt_step(
    derivation_path: String,
    state: SharedBuildState,
    classification: String,
    result_metadata: String,
    row: SharedBuildRow,
    rules: SharedBuildRules,
    history: Seq<Reply>,
) -> Step<SharedBuild, SharedBuildError> {
    if history.len() == 3 {
        Step::Perform(
            Statement::CompleteActiveAttempt { derivation_path, state: ending_name(state) },
        )
    } else {
        match history[3] {
            Reply::AttemptId(None) => failed(SharedBuildFailure::InvalidState),
            Reply::AttemptId(Some(attempt_id)) => if history.len() == 4 {
                Step::Perform(
                    Statement::InsertAttemptOutcome { attempt_id, classification, result_metadata },
                )
            } else if history[4] !is Changed {
                failed(SharedBuildFailure::Query)
            } else {
                match build_of(row, rules) {
                    Some(build) => committed(history, 5, build),
                    None => failed(SharedBuildFailure::Query),
                }
            },
            _ => failed(SharedBuildFailure::Query),
        }
    }
}

fn complete_shared_build(
    database_url: &str,
    derivation_path: &String,
    state: SharedBuildState,
    failure_classification: &Option<String>,
    classification: &String,
    result_metadata: &String,
    retention: &Span,
    rules: &SharedBuildRules,
    history: &Vec<Reply>,
) -> (step: Step<SharedBuild, SharedBuildError>)
    requires
        state == SharedBuildState::Succeeded || state == SharedBuildState::Failed,
        retention.nanoseconds < 1_000_000_000,
    ensures
        settled_build(step) == complete_step(
            database_url@,
            *derivation_path,
            state,
            *failure_classification,
            *classification,
            *result_metadata,
            *retention,
            *rules,
            history@,
        ),
{
    let classified = match failure_classification {
        Some(text) => plain(text.as_str(), MAX_IPC_COMPONENT_BYTES) && state
            == SharedBuildState::Failed,
        None => state == SharedBuildState::Succeeded,
    };
    let object = match crypto::json_object_text(result_metadata.as_str()) {
        Some(object) => object,
        None => false,
    };
    let remembered = (retention.seconds > 0 || retention.nanoseconds > 0) && (retention.seconds
        < 86_400 || (retention.seconds == 86_400 && retention.nanoseconds == 0));
    if !valid_identity(database_url, derivation_path.as_str(), rules) || !object
        || text::length_in_bytes(result_metadata.as_str()) > 1_048_576 || !remembered
        || !classified {
        return fail(SharedBuildFailure::Configuration);
    }
    if let Some(step) = begin(history) {
        return step;
    }
    if history.len() == 1 {
        return Step::Perform(
            Statement::LockSharedBuildState { derivation_path: derivation_path.clone() },
        );
    }
    let current = match &history[1] {
        Reply::Text(None) => {
            return fail(SharedBuildFailure::InvalidState);
        },
        Reply::Text(Some(Some(current))) => current,
        _ => {
            return fail(SharedBuildFailure::Query);
        },
    };
    let claimed = text::same_text(current.as_str(), "claimed");
    let collecting = text::same_text(current.as_str(), "collecting");
    let succeeded = state == SharedBuildState::Succeeded;
    if !collecting && (succeeded || (!claimed && !text::same_text(current.as_str(), "running"))) {
        return fail(SharedBuildFailure::InvalidState);
    }
    let name = if succeeded {
        "succeeded"
    } else {
        "failed"
    };
    if history.len() == 2 {
        return Step::Perform(
            Statement::CompleteSharedBuild {
                derivation_path: derivation_path.clone(),
                state: name,
                result_metadata: result_metadata.clone(),
                failure_classification: copy_option(failure_classification),
                expires_after_seconds: retention.seconds as u32,
            },
        );
    }
    let row = match &history[2] {
        Reply::SharedBuild(Some(row)) => row,
        _ => {
            return fail(SharedBuildFailure::Query);
        },
    };
    if claimed {
        return match decode_shared_build(row, rules) {
            Ok(build) => commit(history, 3, build),
            Err(failure) => fail(failure),
        };
    }
    if history.len() == 3 {
        return Step::Perform(
            Statement::CompleteActiveAttempt {
                derivation_path: derivation_path.clone(),
                state: name,
            },
        );
    }
    let attempt_id: i64 = match &history[3] {
        Reply::AttemptId(None) => {
            return fail(SharedBuildFailure::InvalidState);
        },
        Reply::AttemptId(Some(attempt_id)) => *attempt_id,
        _ => {
            return fail(SharedBuildFailure::Query);
        },
    };
    if history.len() == 4 {
        return Step::Perform(
            Statement::InsertAttemptOutcome {
                attempt_id,
                classification: classification.clone(),
                result_metadata: result_metadata.clone(),
            },
        );
    }
    match &history[4] {
        Reply::Changed(_) => {},
        _ => {
            return fail(SharedBuildFailure::Query);
        },
    }
    match decode_shared_build(row, rules) {
        Ok(build) => commit(history, 5, build),
        Err(failure) => fail(failure),
    }
}

/// Ends a build with success, which is remembered for a while. The metadata is the compact text of a
/// JSON object, with nothing between its parts but commas and colons, and that text is what is
/// measured.
pub fn complete_shared_build_success(
    database_url: &str,
    derivation_path: &String,
    result_metadata: &String,
    retention: &Span,
    rules: &SharedBuildRules,
    history: &Vec<Reply>,
) -> (step: Step<SharedBuild, SharedBuildError>)
    requires
        retention.nanoseconds < 1_000_000_000,
    ensures
        exists|succeeded: String| succeeded@ == "succeeded"@ && settled_build(step)
            == #[trigger] complete_step(
            database_url@,
            *derivation_path,
            SharedBuildState::Succeeded,
            None,
            succeeded,
            *result_metadata,
            *retention,
            *rules,
            history@,
        ),
{
    let succeeded = "succeeded".to_owned();
    complete_shared_build(
        database_url,
        derivation_path,
        SharedBuildState::Succeeded,
        &None,
        &succeeded,
        result_metadata,
        retention,
        rules,
        history,
    )
}

/// Ends a build with a failure, which is remembered for a while. The metadata is the compact text of
/// a JSON object, as where a build succeeds.
pub fn complete_shared_build_failure(
    database_url: &str,
    derivation_path: &String,
    failure_classification: &String,
    result_metadata: &String,
    retention: &Span,
    rules: &SharedBuildRules,
    history: &Vec<Reply>,
) -> (step: Step<SharedBuild, SharedBuildError>)
    requires
        retention.nanoseconds < 1_000_000_000,
    ensures
        settled_build(step) == complete_step(
            database_url@,
            *derivation_path,
            SharedBuildState::Failed,
            Some(*failure_classification),
            *failure_classification,
            *result_metadata,
            *retention,
            *rules,
            history@,
        ),
{
    complete_shared_build(
        database_url,
        derivation_path,
        SharedBuildState::Failed,
        &Some(failure_classification.clone()),
        failure_classification,
        result_metadata,
        retention,
        rules,
        history,
    )
}

/// How the latest attempt at a build is read.
pub open spec fn read_attempt_step(
    database_url: Seq<char>,
    derivation_path: String,
    rules: SharedBuildRules,
    history: Seq<Reply>,
) -> Step<Option<SharedBuildAttempt>, SharedBuildError> {
    if !identity_valid(database_url, derivation_path@, rules) {
        failed(SharedBuildFailure::Configuration)
    } else if let Some(step) = begun(history) {
        step
    } else if history.len() == 1 {
        Step::Perform(Statement::ReadLatestAttempt { derivation_path })
    } else {
        match history[1] {
            Reply::SharedAttempt(None) => Step::Finish(Ok(None)),
            Reply::SharedAttempt(Some(row)) => match attempt_of(row) {
                Some(attempt) => Step::Finish(Ok(Some(attempt))),
                None => failed(SharedBuildFailure::Query),
            },
            _ => failed(SharedBuildFailure::Query),
        }
    }
}

/// Reads the latest attempt at a build, if there was one.
pub fn read_shared_build_attempt(
    database_url: &str,
    derivation_path: &String,
    rules: &SharedBuildRules,
    history: &Vec<Reply>,
) -> (step: Step<Option<SharedBuildAttempt>, SharedBuildError>)
    ensures
        step == read_attempt_step(database_url@, *derivation_path, *rules, history@),
{
    if !valid_identity(database_url, derivation_path.as_str(), rules) {
        return fail(SharedBuildFailure::Configuration);
    }
    if let Some(step) = begin(history) {
        return step;
    }
    if history.len() == 1 {
        return Step::Perform(
            Statement::ReadLatestAttempt { derivation_path: derivation_path.clone() },
        );
    }
    match &history[1] {
        Reply::SharedAttempt(None) => Step::Finish(Ok(None)),
        Reply::SharedAttempt(Some(row)) => match decode_shared_build_attempt(row) {
            Ok(attempt) => Step::Finish(Ok(Some(attempt))),
            Err(failure) => fail(failure),
        },
        _ => fail(SharedBuildFailure::Query),
    }
}

/// How the outcome of an attempt is read.
pub open spec fn read_outcome_step(
    database_url: Seq<char>,
    attempt_id: i64,
    history: Seq<Reply>,
) -> Step<Option<SharedBuildAttemptOutcome>, SharedBuildError> {
    if text::is_blank(database_url) || attempt_id <= 0 {
        failed(SharedBuildFailure::Configuration)
    } else if let Some(step) = begun(history) {
        step
    } else if history.len() == 1 {
        Step::Perform(Statement::ReadAttemptOutcome { attempt_id })
    } else {
        match history[1] {
            Reply::SharedOutcome(None) => Step::Finish(Ok(None)),
            Reply::SharedOutcome(Some(row)) => match outcome_of(row) {
                Some(outcome) => Step::Finish(Ok(Some(outcome))),
                None => failed(SharedBuildFailure::Query),
            },
            _ => failed(SharedBuildFailure::Query),
        }
    }
}

/// Reads the outcome of an attempt, if it has one.
pub fn read_shared_build_attempt_outcome(
    database_url: &str,
    attempt_id: i64,
    history: &Vec<Reply>,
) -> (step: Step<Option<SharedBuildAttemptOutcome>, SharedBuildError>)
    ensures
        step == read_outcome_step(database_url@, attempt_id, history@),
{
    if text::blank(database_url) || attempt_id <= 0 {
        return fail(SharedBuildFailure::Configuration);
    }
    if let Some(step) = begin(history) {
        return step;
    }
    if history.len() == 1 {
        return Step::Perform(Statement::ReadAttemptOutcome { attempt_id });
    }
    match &history[1] {
        Reply::SharedOutcome(None) => Step::Finish(Ok(None)),
        Reply::SharedOutcome(Some(row)) => match decode_shared_build_attempt_outcome(row) {
            Ok(outcome) => Step::Finish(Ok(Some(outcome))),
            Err(failure) => fail(failure),
        },
        _ => fail(SharedBuildFailure::Query),
    }
}

/// A build is queued only while its subject has fewer waiting than it may, and started only while
/// it has fewer running than it may.
pub proof fn quotas_are_kept(
    database_url: Seq<char>,
    derivation_path: String,
    quota_subject: String,
    maximum: usize,
    rules: SharedBuildRules,
    history: Seq<Reply>,
)
    ensures
        enqueue_step(
            database_url,
            derivation_path,
            quota_subject,
            maximum,
            rules,
            history,
        ) matches Step::Perform(Statement::EnqueueSharedBuild { .. }) ==> history[2] matches Reply::Count(
            queued,
        ) && queued + 1 <= maximum,
        start_queued_step(
            database_url,
            derivation_path,
            maximum,
            rules,
            history,
        ) matches Step::Perform(Statement::StartClaimedSharedBuild { .. })
            ==> history[3] matches Reply::Count(active) && active + 1 <= maximum,
{
}

/// A build succeeds only from the state in which its outputs are collected, and no build that
/// ended ends again.
pub proof fn build_ends_once(
    database_url: Seq<char>,
    derivation_path: String,
    state: SharedBuildState,
    failure_classification: Option<String>,
    classification: String,
    result_metadata: String,
    retention: Span,
    rules: SharedBuildRules,
    history: Seq<Reply>,
)
    requires
        complete_step(
            database_url,
            derivation_path,
            state,
            failure_classification,
            classification,
            result_metadata,
            retention,
            rules,
            history,
        ) matches Step::Perform(Statement::CompleteSharedBuild { .. }),
    ensures
        history[1] matches Reply::Text(Some(Some(current))) && current@ != "succeeded"@ && current@
            != "failed"@ && (state == SharedBuildState::Succeeded ==> current@ == "collecting"@),
{
    reveal_strlit("succeeded");
    reveal_strlit("failed");
    reveal_strlit("claimed");
    reveal_strlit("running");
    reveal_strlit("collecting");
    assert("claimed"@.len() == 7);
    assert("running"@.len() == 7);
    assert("collecting"@.len() == 10);
    assert("succeeded"@.len() == 9);
    assert("failed"@.len() == 6);
}

} // verus!
