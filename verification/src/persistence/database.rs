//! Statements to the database and its replies. An operation looks at the replies so far and
//! either names the statement that comes next or ends.

use crate::service::ipc::MAX_IPC_COMPONENT_BYTES;
use crate::text;
use vstd::prelude::*;

verus! {

/// A moment, in microseconds since the Unix epoch.
pub type Moment = i64;

/// A digest of 32 bytes.
pub type Digest = [u8; 32];

/// The digest with the given bytes.
pub open spec fn digest_of(bytes: Seq<u8>) -> Digest {
    choose|digest: Digest| digest@ == bytes
}

/// Takes bytes as a digest where there are as many as a digest has.
pub fn digest(bytes: &[u8]) -> (taken: Option<Digest>)
    ensures
        match taken {
            Some(digest) => bytes@.len() == 32 && digest == digest_of(bytes@) && digest@ == bytes@,
            None => bytes@.len() != 32,
        },
{
    if bytes.len() != 32 {
        return None;
    }
    let mut digest: Digest = [0u8;32];
    let mut i: usize = 0;
    while i < 32
        invariant
            i <= 32,
            bytes@.len() == 32,
            forall|j: int| 0 <= j < i ==> digest@[j] == bytes@[j],
        decreases 32 - i,
    {
        digest[i] = bytes[i];
        i += 1;
    }
    proof {
        assert(digest@ =~= bytes@);
        same_digests(digest, digest_of(bytes@));
    }
    Some(digest)
}

/// Digests with the same bytes are the same.
pub proof fn same_digests(left: Digest, right: Digest)
    requires
        left@ == right@,
    ensures
        left == right,
{
    assert forall|i: int| 0 <= i < 32 implies left[i] == right[i] by {
        assert(left@[i] == right@[i]);
    }
    assert(left =~= right);
}

/// The digest with the bytes of a digest is that digest.
pub proof fn digest_is_kept(digest: Digest)
    ensures
        digest_of(digest@) == digest,
{
    same_digests(digest_of(digest@), digest);
}

/// Compares two digests.
pub fn equal_digests(left: &Digest, right: &Digest) -> (same: bool)
    ensures
        same == (*left == *right),
{
    let same = text::same_bytes(left.as_slice(), right.as_slice());
    proof {
        if left@ == right@ {
            same_digests(*left, *right);
        }
    }
    same
}

/// Limits that the worker protocol sets.
#[derive(Clone, Copy, Debug, PartialEq, Eq, Structural)]
pub struct WorkerLimits {
    pub maximum_store_path_bytes: usize,
    pub maximum_input_sources: usize,
    pub maximum_outputs: usize,
}

/// Why a statement failed.
#[derive(Clone, Copy, Debug, PartialEq, Eq, Structural)]
pub enum DatabaseFault {
    /// A row with the same key is there already.
    UniqueViolation,
    Other,
}

/// A row of `protocol_sessions`.
#[derive(Clone, Debug)]
pub struct SessionRow {
    pub session_id: String,
    pub requester_reference: String,
    pub credential_id: Option<String>,
    pub authentication_authority: Option<String>,
    pub audit_subject: String,
    pub quota_subject: String,
    pub state: String,
    pub created_at: Moment,
    pub closed_at: Option<Moment>,
}

/// A row of `build_requests`.
#[derive(Clone, Debug)]
pub struct BuildRequestRow {
    pub request_id: String,
    pub derivation_path: String,
    pub system: String,
    pub audit_subject: String,
    pub quota_subject: String,
    pub created_at: Moment,
}

/// A row of `request_attachments`.
#[derive(Clone, Debug)]
pub struct AttachmentRow {
    pub session_id: String,
    pub request_id: String,
    pub state: String,
    pub attached_at: Moment,
    pub detached_at: Option<Moment>,
    pub delivered_at: Option<Moment>,
}

/// A row of `local_backend_executions`.
#[derive(Clone, Debug)]
pub struct LocalExecutionRow {
    pub backend_execution_id: String,
    pub idempotency_key: String,
    pub specification_digest: Vec<u8>,
    pub state: String,
    pub created_at: Moment,
    pub started_at: Option<Moment>,
    pub completed_at: Option<Moment>,
}

/// A row of `local_backend_execution_results`.
#[derive(Clone, Debug)]
pub struct LocalResultRow {
    pub backend_execution_id: String,
    pub classification: String,
    pub result_metadata: String,
    pub created_at: Moment,
}

/// A row of `store_leases`.
#[derive(Clone, Debug)]
pub struct LeaseRow {
    pub lease_id: String,
    pub owner_kind: String,
    pub owner_id: String,
    pub store_path: String,
    pub purpose: String,
    pub state: String,
    pub created_at: Moment,
    pub released_at: Option<Moment>,
    pub expires_at: Option<Moment>,
    pub nar_size: Option<i64>,
}

/// What was asked to be built. Requests differ where their texts do; one with a path that is no
/// text is not executable.
#[derive(Clone, Debug)]
pub struct RequestedBuild {
    pub text: String,
    pub executable: bool,
    pub derivation_path: String,
    pub digest: Digest,
    pub output_paths: Vec<String>,
}

impl RequestedBuild {
    /// The request with its list told apart by what it holds alone.
    pub open spec fn settled(self) -> RequestedBuild {
        RequestedBuild { output_paths: list_of(self.output_paths@), ..self }
    }

    pub fn copy(&self) -> (copied: RequestedBuild)
        ensures
            copied.settled() == self.settled(),
    {
        RequestedBuild {
            text: self.text.clone(),
            executable: self.executable,
            derivation_path: self.derivation_path.clone(),
            digest: self.digest,
            output_paths: copy_list(&self.output_paths),
        }
    }
}

/// A row of `shared_builds`.
#[derive(Clone, Debug)]
pub struct SharedBuildRow {
    pub derivation_path: String,
    pub request_digest: Vec<u8>,
    pub state: String,
    pub backend_name: String,
    pub backend_kind: String,
    pub execution_recovery: String,
    pub cancellation: String,
    pub log_recovery: String,
    pub backend_execution_id: Option<String>,
    pub expected_outputs: Vec<String>,
    pub build_request: Option<RequestedBuild>,
    pub result_metadata: Option<String>,
    pub failure_classification: Option<String>,
    pub created_at: Moment,
    pub started_at: Option<Moment>,
    pub collecting_at: Option<Moment>,
    pub completed_at: Option<Moment>,
    pub expires_at: Option<Moment>,
}

/// A row of `shared_builds` as far as it tells of the queue.
#[derive(Clone, Debug)]
pub struct QueueEntryRow {
    pub derivation_path: String,
    pub quota_subject: String,
    pub queue_position: i64,
    pub queued_at: Moment,
}

/// A row of `shared_build_attempts`.
#[derive(Clone, Debug)]
pub struct SharedAttemptRow {
    pub attempt_id: i64,
    pub derivation_path: String,
    pub ordinal: i32,
    pub backend_name: String,
    pub backend_kind: String,
    pub backend_execution_id: Option<String>,
    pub state: String,
    pub created_at: Moment,
    pub started_at: Option<Moment>,
    pub collecting_at: Option<Moment>,
    pub completed_at: Option<Moment>,
}

/// A row of `shared_build_attempt_outcomes`.
#[derive(Clone, Debug)]
pub struct SharedOutcomeRow {
    pub attempt_id: i64,
    pub classification: String,
    pub result_metadata: String,
    pub created_at: Moment,
}

/// A row of `telchar_schema_migrations`.
#[derive(Clone, Debug)]
pub struct LedgerRow {
    pub version: i64,
    pub name: String,
    pub checksum: Vec<u8>,
}

/// A row of `build_requests` with its place in the queue.
#[derive(Clone, Debug)]
pub struct QueuedRequestRow {
    pub request_id: String,
    pub derivation_path: String,
    pub system: String,
    pub queue_state: String,
    pub queued_at: Option<Moment>,
    pub audit_subject: String,
    pub quota_subject: String,
    pub created_at: Moment,
}

/// A row of `execution_attempts`.
#[derive(Clone, Debug)]
pub struct AttemptRow {
    pub attempt_id: String,
    pub request_id: String,
    pub ordinal: i32,
    pub idempotency_key: String,
    pub backend: String,
    pub backend_execution_id: Option<String>,
    pub state: String,
    pub created_at: Moment,
    pub submitted_at: Option<Moment>,
    pub started_at: Option<Moment>,
    pub collecting_at: Option<Moment>,
    pub completed_at: Option<Moment>,
    pub fenced_at: Option<Moment>,
}

/// A row of `capacity_reservations`.
#[derive(Clone, Debug)]
pub struct ReservationRow {
    pub reservation_id: String,
    pub attempt_id: String,
    pub phase: String,
    pub quota_subject: String,
    pub units: i32,
    pub created_at: Moment,
    pub released_at: Option<Moment>,
}

/// A row of `execution_outcomes`.
#[derive(Clone, Debug)]
pub struct OutcomeRow {
    pub attempt_id: String,
    pub classification: String,
    pub result_metadata: String,
    pub created_at: Moment,
}

/// What is asked of the database. A row is locked where it is to be changed, and held where only
/// other rows that point to it are. Rows that are written are returned as they are then.
#[derive(Debug)]
pub enum Statement {
    /// Connect, and begin a transaction where the operation needs one.
    Begin,
    Commit,
    OpenSession {
        session_id: String,
        requester_reference: String,
        credential_id: String,
        authentication_authority: &'static str,
        audit_subject: String,
        quota_subject: String,
    },
    /// Close the session if it is open.
    CloseOpenSession { session_id: String },
    ReadSessionState { session_id: String },
    ReadSession { session_id: String },
    HoldSession { session_id: String },
    CreateBuildRequest {
        request_id: String,
        derivation_path: String,
        system: String,
        audit_subject: String,
        quota_subject: String,
    },
    ReadBuildRequest { request_id: String },
    HoldBuildRequest { request_id: String },
    LockBuildRequest { request_id: String },
    /// Hold the request, and tell whether it is there.
    FindBuildRequest { request_id: String },
    Attach { session_id: String, request_id: String },
    /// Detach the request if it is attached.
    DetachAttached { session_id: String, request_id: String },
    /// Mark the request as delivered if it is attached.
    DeliverAttached { session_id: String, request_id: String },
    ReadAttachmentState { session_id: String, request_id: String },
    ReadAttachment { session_id: String, request_id: String },
    LockAttachment { session_id: String, request_id: String },
    /// Lock the attachment of the request to any session, and tell whether there is one.
    FindAttachment { request_id: String },
    /// Wait for the lock under which migrations run.
    LockMigrations { key: i64 },
    /// Create the ledger of migrations unless it is there.
    CreateLedger,
    /// Read the ledger in the order of its versions.
    ReadLedger,
    RunMigration { sql: String },
    RecordMigration { version: i64, name: &'static str, checksum: Digest },
    /// Wait for the lock under which retained inputs are let in.
    LockRetainedInputs { key: i64 },
    /// Sum up the sizes of the paths that derivations and inputs retain.
    SumRetainedSizes,
    /// Read the sizes of those of the paths that derivations and inputs retain.
    ReadRetainedSizes { store_paths: Vec<String> },
    /// Insert an active lease that expires so many seconds from now.
    InsertLease {
        lease_id: String,
        owner_kind: &'static str,
        owner_id: String,
        store_path: String,
        purpose: &'static str,
        expires_after_seconds: Option<u64>,
        nar_size: Option<i64>,
    },
    ReadLease { lease_id: String },
    LockLease { lease_id: String },
    /// Release the lease if it is active.
    ReleaseActiveLease { lease_id: String },
    /// Lock the leases of a request in the order of their names.
    LockRequestLeases { request_id: String },
    /// Lock the leases on outputs of a request in the order of their names.
    LockRequestOutputLeases { request_id: String },
    /// Release the active leases on the derivation and the inputs of a request.
    ReleaseRequestInputLeases { request_id: String },
    /// Lock active leases on outputs that have expired, in the order of their names, and pass
    /// over those that are locked.
    LockExpiredOutputLeases {
        now: Moment,
        after_lease_id: Option<String>,
        maximum_rows: i64,
    },
    /// Read released leases of requests in the order of their names.
    ReadReleasedRequestLeases { after_lease_id: Option<String>, maximum_rows: i64 },
    /// Wait for the lock under which the builds of a subject are counted.
    LockQuotaSubject { quota_subject: String },
    CountQueuedSharedBuilds { quota_subject: String },
    CountActiveSharedBuilds { quota_subject: String },
    /// Queue the build for a subject if it is claimed and for none yet.
    EnqueueSharedBuild { derivation_path: String, quota_subject: String },
    /// Lock the build if it is queued, and read its subject.
    LockQueuedSubject { derivation_path: String },
    /// Mark the build as running if it is claimed.
    StartClaimedSharedBuild { derivation_path: String },
    /// Mark the build as collecting if it is running.
    CollectRunningSharedBuild { derivation_path: String },
    /// Mark the running attempts at the build as collecting.
    CollectRunningAttempts { derivation_path: String },
    ReadNextAttemptOrdinal { derivation_path: String },
    InsertRunningAttempt {
        derivation_path: String,
        ordinal: i32,
        backend_name: String,
        backend_kind: &'static str,
        backend_execution_id: Option<String>,
    },
    /// Read queued builds in the order of the queue.
    ReadQueuedSharedBuilds { maximum_rows: i64 },
    /// Read the first queued build of each subject.
    ReadFirstQueuedOfSubjects { maximum_rows: i64 },
    ReadSchedulerSubject,
    RecordSchedulerSubject { quota_subject: String },
    /// Insert the build, or take it over if it failed, and tell whether either was done.
    ClaimSharedBuild {
        derivation_path: String,
        request_digest: Digest,
        backend_name: String,
        backend_kind: &'static str,
        execution_recovery: &'static str,
        cancellation: &'static str,
        log_recovery: &'static str,
        backend_execution_id: Option<String>,
        expected_outputs: Vec<String>,
        build_request: Option<String>,
    },
    ReadSharedBuild { derivation_path: String },
    /// Read the build that runs or collects under an execution.
    ReadSharedBuildByExecution { backend_name: String, backend_execution_id: String },
    CountSharedBuilds,
    /// Read builds that are claimed, running or collecting, oldest first.
    ReadActiveSharedBuilds { maximum_rows: i64 },
    LockSharedBuildState { derivation_path: String },
    CompleteSharedBuild {
        derivation_path: String,
        state: &'static str,
        result_metadata: String,
        failure_classification: Option<String>,
        expires_after_seconds: u32,
    },
    /// End the running or collecting attempt at the build.
    CompleteActiveAttempt { derivation_path: String, state: &'static str },
    InsertAttemptOutcome { attempt_id: i64, classification: String, result_metadata: String },
    ReadLatestAttempt { derivation_path: String },
    ReadAttemptOutcome { attempt_id: i64 },
    LockQueuedRequest { request_id: String },
    /// Lock the request if it is in the state.
    LockQueuedRequestIn { request_id: String, queue_state: &'static str },
    /// Count the purposes, derivation and input, for which the request holds leases.
    CountRequiredLeases { request_id: String },
    /// Count the leases on outputs that the request holds.
    CountOutputLeases { request_id: String },
    /// Queue the request if it is accepted.
    QueueAcceptedRequest { request_id: String },
    /// Read queued requests, first come first.
    ReadQueuedRequests { maximum_rows: i64 },
    /// Move the request to another state if it is in the given one.
    MoveRequest { request_id: String, from: &'static str, to: &'static str },
    InsertAttempt {
        attempt_id: String,
        request_id: String,
        ordinal: i32,
        idempotency_key: String,
        backend: String,
    },
    ReadAttempt { attempt_id: String },
    LockAttempt { attempt_id: String },
    /// Move the attempt to its next state if it is in the given one, and record when.
    MoveAttempt {
        attempt_id: String,
        from: &'static str,
        to: &'static str,
        backend_execution_id: Option<String>,
    },
    /// Fence the attempt if it is dispatching and was not submitted.
    FenceDispatchingAttempt { attempt_id: String },
    /// End the attempt if it is in the given state, and record when.
    EndAttempt { attempt_id: String, from: &'static str, to: &'static str },
    /// Lock attempts that are dispatching and were not submitted, oldest first.
    LockDispatchingAttempts { maximum_rows: i64 },
    /// Lock attempts that wait for an execution that the local backend accepted.
    LockPendingAttempts { maximum_rows: i64 },
    /// Lock attempts that run with an execution of the local backend.
    LockRunningAttempts { maximum_rows: i64 },
    /// Lock attempts that collect the outputs of an execution that ended, with its result.
    LockCollectingAttempts { maximum_rows: i64 },
    InsertReservation {
        reservation_id: String,
        attempt_id: String,
        quota_subject: String,
        units: i32,
    },
    /// Lock the reservation if it holds for the phase.
    LockReservation { attempt_id: String, phase: &'static str },
    /// Move the reservation to another phase if it holds for the given one.
    MoveReservation { attempt_id: String, from: &'static str, to: &'static str },
    /// Release the reservation if it holds for the phase.
    ReleaseReservation { attempt_id: String, phase: &'static str },
    InsertOutcome { attempt_id: String, classification: String, result_metadata: String },
    InsertSuccess { attempt_id: String, result_metadata: String },
    InsertPlainOutcome { attempt_id: String, classification: String },
    ReadOutcome { attempt_id: String },
    LockCallbackNonces,
    ForgetExpiredCallbackNonces,
    CountCallbackNonces,
    /// Insert the nonce unless it is there.
    InsertCallbackNonce {
        nonce_digest: Digest,
        backend_name: String,
        job_id: String,
        allocation_id: String,
        expires_at: Moment,
    },
    /// Lock the execution with either key.
    LockLocalExecutionByKeys { backend_execution_id: String, idempotency_key: String },
    RegisterLocalExecution {
        backend_execution_id: String,
        idempotency_key: String,
        specification_digest: Digest,
    },
    /// Mark the execution as running if it is accepted.
    StartAcceptedLocalExecution { backend_execution_id: String },
    LockLocalExecution { backend_execution_id: String },
    ReadLocalExecution { backend_execution_id: String },
    ReadLocalResult { backend_execution_id: String },
    InsertLocalResult {
        backend_execution_id: String,
        classification: String,
        result_metadata: String,
    },
    /// Put the execution into its last state if it is running.
    FinishRunningLocalExecution { backend_execution_id: String, state: &'static str },
}

/// What the database answers. A row that cannot be read is a failure.
#[derive(Debug)]
pub enum Reply {
    Done,
    Failed(DatabaseFault),
    Count(i64),
    Changed(u64),
    Session(Option<SessionRow>),
    BuildRequest(Option<BuildRequestRow>),
    Attachment(Option<AttachmentRow>),
    /// The only column of a row, a text; the inner value is missing where there is none.
    Text(Option<Option<String>>),
    LocalExecution(Option<LocalExecutionRow>),
    LocalResult(Option<LocalResultRow>),
    Found(bool),
    Lease(Option<LeaseRow>),
    Leases(Vec<LeaseRow>),
    /// Paths with their sizes.
    Sizes(Vec<(String, i64)>),
    QueueEntry(Option<QueueEntryRow>),
    QueueEntries(Vec<QueueEntryRow>),
    SharedBuild(Option<SharedBuildRow>),
    SharedBuilds(Vec<SharedBuildRow>),
    SharedAttempt(Option<SharedAttemptRow>),
    SharedOutcome(Option<SharedOutcomeRow>),
    Ordinal(i32),
    AttemptId(Option<i64>),
    /// How many builds are queued, running and collecting.
    Counts(i64, i64, i64),
    Ledger(Vec<LedgerRow>),
    QueuedRequest(Option<QueuedRequestRow>),
    QueuedRequests(Vec<QueuedRequestRow>),
    Attempt(Option<AttemptRow>),
    Attempts(Vec<AttemptRow>),
    CollectingAttempts(Vec<(AttemptRow, LocalResultRow)>),
    Reservation(Option<ReservationRow>),
    Outcome(Option<OutcomeRow>),
}

/// What an operation does next.
#[derive(Debug)]
pub enum Step<T, E> {
    Perform(Statement),
    Finish(Result<T, E>),
}

/// A list with the given texts.
pub open spec fn list_of(texts: Seq<String>) -> Vec<String> {
    choose|list: Vec<String>| list@ == texts
}

impl Statement {
    /// The statement with its lists told apart by what they hold alone.
    pub open spec fn settled(self) -> Statement {
        match self {
            Statement::ReadRetainedSizes { store_paths } => Statement::ReadRetainedSizes {
                store_paths: list_of(store_paths@),
            },
            Statement::ClaimSharedBuild {
                derivation_path,
                request_digest,
                backend_name,
                backend_kind,
                execution_recovery,
                cancellation,
                log_recovery,
                backend_execution_id,
                expected_outputs,
                build_request,
            } => Statement::ClaimSharedBuild {
                derivation_path,
                request_digest,
                backend_name,
                backend_kind,
                execution_recovery,
                cancellation,
                log_recovery,
                backend_execution_id,
                expected_outputs: list_of(expected_outputs@),
                build_request,
            },
            statement => statement,
        }
    }
}

/// Copies a list of texts.
pub fn copy_list(list: &Vec<String>) -> (copied: Vec<String>)
    ensures
        copied@ == list@,
{
    let mut copied: Vec<String> = Vec::new();
    let mut i: usize = 0;
    while i < list.len()
        invariant
            i <= list@.len(),
            copied@ == list@.take(i as int),
        decreases list@.len() - i,
    {
        copied.push(list[i].clone());
        assert(list@.take(i + 1) =~= list@.take(i as int).push(list@[i as int]));
        i += 1;
    }
    assert(list@.take(list@.len() as int) =~= list@);
    copied
}

/// A step with its lists told apart by what they hold alone.
pub open spec fn settled<T, E>(step: Step<T, E>) -> Step<T, E> {
    match step {
        Step::Perform(statement) => Step::Perform(statement.settled()),
        Step::Finish(result) => Step::Finish(result),
    }
}

/// A step towards a list, by what the list holds.
pub open spec fn listed<T, E>(step: Step<Vec<T>, E>) -> Step<Seq<T>, E> {
    match step {
        Step::Perform(statement) => Step::Perform(statement.settled()),
        Step::Finish(Ok(list)) => Step::Finish(Ok(list@)),
        Step::Finish(Err(error)) => Step::Finish(Err(error)),
    }
}

/// How an operation starts: it connects, and ends with the given error where it cannot.
pub open spec fn begun<T, E>(history: Seq<Reply>, error: E) -> Option<Step<T, E>> {
    if history.len() == 0 {
        Some(Step::Perform(Statement::Begin))
    } else if history[0] !is Done {
        Some(Step::Finish(Err(error)))
    } else {
        None
    }
}

/// Connects; there is no step left to make once that is done.
pub fn begin<T, E>(history: &Vec<Reply>, error: E) -> (step: Option<Step<T, E>>)
    ensures
        step == begun::<T, E>(history@, error),
{
    if history.len() == 0 {
        return Some(Step::Perform(Statement::Begin));
    }
    match &history[0] {
        Reply::Done => None,
        _ => Some(Step::Finish(Err(error))),
    }
}

/// How an operation with a result ends: it commits first, and ends with the given error where it
/// cannot.
pub open spec fn committed<T, E>(history: Seq<Reply>, place: int, value: T, error: E) -> Step<
    T,
    E,
> {
    if history.len() <= place {
        Step::Perform(Statement::Commit)
    } else if history[place] is Done {
        Step::Finish(Ok(value))
    } else {
        Step::Finish(Err(error))
    }
}

/// Commits, and ends with the result once that is done.
pub fn commit<T, E>(history: &Vec<Reply>, place: usize, value: T, error: E) -> (step: Step<T, E>)
    ensures
        step == committed(history@, place as int, value, error),
{
    if history.len() <= place {
        return Step::Perform(Statement::Commit);
    }
    match &history[place] {
        Reply::Done => Step::Finish(Ok(value)),
        _ => Step::Finish(Err(error)),
    }
}

/// A name in the database: not empty, and not longer than a component may be.
pub open spec fn is_component(value: Seq<char>) -> bool {
    value.len() > 0 && text::byte_length(value) <= MAX_IPC_COMPONENT_BYTES
}

pub fn component(value: &str) -> (valid: bool)
    ensures
        valid == is_component(value@),
{
    !value.is_empty() && text::length_in_bytes(value) <= MAX_IPC_COMPONENT_BYTES
}

/// A text is not empty and has at most so many bytes.
pub open spec fn is_bounded(value: Seq<char>, maximum: nat) -> bool {
    value.len() > 0 && text::byte_length(value) <= maximum
}

pub fn bounded(value: &str, maximum: usize) -> (valid: bool)
    ensures
        valid == is_bounded(value@, maximum as nat),
{
    !value.is_empty() && text::length_in_bytes(value) <= maximum
}

/// Copies an optional text.
pub fn copy_option(value: &Option<String>) -> (copied: Option<String>)
    ensures
        copied == *value,
{
    match value {
        Some(text) => Some(text.clone()),
        None => None,
    }
}

/// An optional moment is not before another.
pub open spec fn is_since(moment: Option<Moment>, start: Moment) -> bool {
    match moment {
        Some(later) => later >= start,
        None => false,
    }
}

pub fn since(moment: Option<Moment>, start: Moment) -> (valid: bool)
    ensures
        valid == is_since(moment, start),
{
    match moment {
        Some(later) => later >= start,
        None => false,
    }
}

} // verus!
